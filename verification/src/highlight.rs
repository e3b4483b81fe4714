//! Syntax highlighting of the code lines of a diff.
use vstd::prelude::*;
use vstd::string::StringSliceAdditionalSpecFns;
use vstd::utf8::*;
use core::ops::Range;
use core::str::FromStr;

use syntect::highlighting::ScopeSelector;
use syntect::parsing::{ParseScopeError, ParsingError, ScopeError, ScopeStack, ScopeStackOp, SyntaxReference, SyntaxSet};

use crate::diff::{DiffDocument, DiffLine, LineKind};
use crate::path::{extension_of_name, file_name};

verus! {


/// Files with more bytes of diff lines than this are not highlighted.
pub const MAX_HIGHLIGHTED_FILE_BYTES: usize = 2 * 1024 * 1024;

/// Files with more diff lines than this are not highlighted.
pub const MAX_HIGHLIGHTED_FILE_LINES: usize = 50000;

/// The kinds of code a span can be.
#[derive(Debug, Clone, Copy, PartialEq, Eq, Hash, Structural)]
pub enum SyntaxToken {
    Comment,
    Keyword,
    String,
    Number,
    Function,
    Type,
    Variable,
    Constant,
    Operator,
    Punctuation,
    Property,
    Tag,
    Attribute,
    Invalid,
}

/// A highlighted stretch of a diff line.
#[derive(Debug, PartialEq, Eq)]
pub struct HighlightSpan {
    /// Byte range within the diff line, including its one-byte diff prefix.
    pub range: Range<usize>,
    pub token: SyntaxToken,
}

impl Clone for HighlightSpan {
    fn clone(&self) -> (r: Self)
        ensures
            r == *self,
    {
        HighlightSpan { range: self.range.start..self.range.end, token: self.token }
    }
}

/// The spans of every line of a document, and how many files were too large
/// to highlight.
#[derive(Debug, Clone)]
pub struct HighlightedDiff {
    pub lines: Vec<Vec<HighlightSpan>>,
    pub skipped_files: usize,
}

impl Default for HighlightedDiff {
    fn default() -> (h: HighlightedDiff)
        ensures
            h.lines@.len() == 0,
            h.skipped_files == 0,
    {
        HighlightedDiff { lines: Vec::new(), skipped_files: 0 }
    }
}

/// Why highlighting stopped.
#[derive(Debug, Clone, Copy, PartialEq, Eq, Structural)]
pub enum HighlightError {
    /// The syntax set has no plain-text syntax to fall back on.
    MissingPlainText,
    /// A scope selector did not parse.
    InvalidSelector,
    /// A source line could not be parsed.
    ParseLine,
    /// A scope operation could not be applied.
    ApplyScope,
    /// The parser reported positions out of order or outside the line.
    BadOffsets,
}

impl HighlightError {
    /// The message shown for the error.
    pub fn message(&self) -> (m: &'static str)
        ensures
            m@ == match self {
                HighlightError::MissingPlainText => "syntax set has no plain text syntax"@,
                HighlightError::InvalidSelector => "invalid scope selector"@,
                HighlightError::ParseLine => "parse source line for syntax highlighting"@,
                HighlightError::ApplyScope => "apply syntax scope operation"@,
                HighlightError::BadOffsets => "syntax parser reported offsets outside the line"@,
            },
    {
        match self {
            HighlightError::MissingPlainText => "syntax set has no plain text syntax",
            HighlightError::InvalidSelector => "invalid scope selector",
            HighlightError::ParseLine => "parse source line for syntax highlighting",
            HighlightError::ApplyScope => "apply syntax scope operation",
            HighlightError::BadOffsets => "syntax parser reported offsets outside the line",
        }
    }
}

#[verifier::external_type_specification]
#[verifier::external_body]
pub struct ExSyntaxSet(SyntaxSet);

#[verifier::external_type_specification]
#[verifier::external_body]
pub struct ExSyntaxReference(SyntaxReference);

#[verifier::external_type_specification]
#[verifier::external_body]
pub struct ExParseState(syntect::parsing::ParseState);

#[verifier::external_type_specification]
#[verifier::external_body]
pub struct ExScopeStack(ScopeStack);

#[verifier::external_type_specification]
#[verifier::external_body]
pub struct ExScopeStackOp(ScopeStackOp);

#[verifier::external_type_specification]
#[verifier::external_body]
pub struct ExScopeSelector(ScopeSelector);

#[verifier::external_type_specification]
#[verifier::external_body]
pub struct ExParsingError(ParsingError);

#[verifier::external_type_specification]
#[verifier::external_body]
pub struct ExScopeError(ScopeError);

#[verifier::external_type_specification]
#[verifier::external_body]
pub struct ExParseScopeError(ParseScopeError);

/// How a syntax was found among the bundled ones: by a file extension (its
/// bytes) or by name.
pub enum SyntaxKey {
    Extension(Seq<u8>),
    Name(Seq<char>),
}

/// What a scope operation does to a scope stack, with scopes by name.
pub enum ScopeChange {
    /// Pushes a scope.
    Push(Seq<char>),
    /// Pops this many scopes, or all when there are fewer.
    Pop(usize),
    /// Sets aside this many scopes from the top, or all when there are fewer.
    ClearTop(usize),
    /// Sets aside all scopes.
    ClearAll,
    /// Puts back the scopes set aside last.
    Restore,
    /// Does nothing.
    Noop,
}

/// The scopes on a stack by name, bottom first, and the groups of scopes set
/// aside from it and not yet put back, oldest first.
pub struct ScopeState {
    pub scopes: Seq<Seq<char>>,
    pub cleared: Seq<Seq<Seq<char>>>,
}

/// The names of the scopes on a stack, bottom first.
pub uninterp spec fn stack_scopes(stack: ScopeStack) -> Seq<Seq<char>>;

/// The groups of scopes set aside from a stack and not yet put back, oldest
/// first, each by name and bottom first.
pub uninterp spec fn stack_cleared(stack: ScopeStack) -> Seq<Seq<Seq<char>>>;

/// The scopes of a stack and those set aside from it.
pub open spec fn stack_state(stack: ScopeStack) -> ScopeState {
    ScopeState { scopes: stack_scopes(stack), cleared: stack_cleared(stack) }
}

/// An empty scope state.
pub open spec fn empty_state() -> ScopeState {
    ScopeState { scopes: Seq::empty(), cleared: Seq::empty() }
}

/// What a change makes of a scope state; `None` when it puts back scopes
/// and none were set aside.
pub open spec fn apply_change(s: ScopeState, c: ScopeChange) -> Option<ScopeState> {
    match c {
        ScopeChange::Push(name) => Some(ScopeState { scopes: s.scopes.push(name), cleared: s.cleared }),
        ScopeChange::Pop(n) => Some(
            ScopeState {
                scopes: s.scopes.take(if n <= s.scopes.len() { s.scopes.len() - n } else { 0 }),
                cleared: s.cleared,
            },
        ),
        ScopeChange::ClearTop(n) => {
            let keep: int = if n <= s.scopes.len() { s.scopes.len() - n } else { 0 };
            Some(ScopeState { scopes: s.scopes.take(keep), cleared: s.cleared.push(s.scopes.skip(keep)) })
        },
        ScopeChange::ClearAll => Some(ScopeState { scopes: Seq::empty(), cleared: s.cleared.push(s.scopes) }),
        ScopeChange::Restore => if s.cleared.len() == 0 {
            None
        } else {
            Some(ScopeState { scopes: s.scopes + s.cleared.last(), cleared: s.cleared.drop_last() })
        },
        ScopeChange::Noop => Some(s),
    }
}

/// Whether a syntax is registered for a file extension among the bundled
/// syntaxes.
pub uninterp spec fn extension_syntax_found(extension: Seq<u8>) -> bool;

/// Whether a syntax of the given name is among the bundled syntaxes.
pub uninterp spec fn named_syntax_found(name: Seq<char>) -> bool;

/// The scope operations that parsing a line gives, with the byte offset of
/// each and by what it does to a stack, for a parser started in the syntax
/// found by `syntax` that was given the lines `earlier` before; `None` when
/// the parser reports an error.
pub uninterp spec fn parsed_line(syntax: SyntaxKey, earlier: Seq<Seq<u8>>, line: Seq<u8>) -> Option<Seq<(usize, ScopeChange)>>;

/// Whether a scope selector reads from the text.
pub uninterp spec fn selector_parses(text: Seq<char>) -> bool;

/// Whether the scope selector read from the text matches scopes with these
/// names, bottom first.
pub uninterp spec fn selector_match(selector: Seq<char>, scopes: Seq<Seq<char>>) -> bool;

/// The syntax definitions bundled with `two_face`, for lines that keep their
/// newline. Only `bundled_syntaxes` makes one, so every value of this type
/// holds the same set: the one `two_face` loads from its dump, whose
/// syntaxes syntect built from `.sublime-syntax` definitions.
pub struct BundledSyntaxes {
    set: SyntaxSet,
}

/// A syntax of the bundled definitions, with how it was found. Only the
/// lookups `syntax_by_extension` and `syntax_by_name` make one.
pub struct BundledSyntax<'a> {
    syntax: &'a SyntaxReference,
    key: Ghost<SyntaxKey>,
}

impl<'a> View for BundledSyntax<'a> {
    type V = SyntaxKey;

    closed spec fn view(&self) -> SyntaxKey {
        self.key@
    }
}

/// The parse state of one side of a file, with the syntax it started from
/// and the lines it was given since. Only `start_parsing` makes one and only
/// `parse_line` advances it, so the state is the one those lines lead to.
pub struct BundledParse {
    state: syntect::parsing::ParseState,
    key: Ghost<SyntaxKey>,
    fed: Ghost<Seq<Seq<u8>>>,
}

impl View for BundledParse {
    type V = (SyntaxKey, Seq<Seq<u8>>);

    closed spec fn view(&self) -> (SyntaxKey, Seq<Seq<u8>>) {
        (self.key@, self.fed@)
    }
}

/// The scope operations of one parsed line: their offsets, the operations,
/// and what each does to a stack. Only `parse_line` makes one, so operation
/// `k` is the one that `changes[k]` describes.
pub struct ParsedLine {
    offsets: Vec<usize>,
    ops: Vec<ScopeStackOp>,
    changes: Ghost<Seq<(usize, ScopeChange)>>,
}

impl View for ParsedLine {
    type V = Seq<(usize, ScopeChange)>;

    closed spec fn view(&self) -> Seq<(usize, ScopeChange)> {
        self.changes@
    }
}

/// The offsets of scope operations.
pub open spec fn offsets_of(changes: Seq<(usize, ScopeChange)>) -> Seq<usize> {
    Seq::new(changes.len(), |k: int| changes[k].0)
}

impl ParsedLine {
    /// The offsets held are those of the operations, one per operation.
    closed spec fn well_formed(&self) -> bool {
        &&& self.offsets@ == offsets_of(self@)
        &&& self.ops@.len() == self@.len()
    }
}

/// A scope selector, with the text it was read from. Only `scope_selector`
/// makes one.
pub struct NamedSelector {
    selector: ScopeSelector,
    text: Ghost<Seq<char>>,
}

impl View for NamedSelector {
    type V = Seq<char>;

    closed spec fn view(&self) -> Seq<char> {
        self.text@
    }
}

/// The syntax definitions bundled with `two_face`.
///
/// Calls `two_face::syntax::extra_newlines`, which unpacks a dump made in
/// the crate's build and cannot fail on it; nothing is claimed of the set.
#[verifier::external_body]
fn bundled_syntaxes() -> BundledSyntaxes {
    BundledSyntaxes { set: two_face::syntax::extra_newlines() }
}

/// The bundled syntax registered for a file extension, if any.
///
/// Calls `SyntaxSet::find_syntax_by_extension`. Claims that it finds one
/// exactly when `extension_syntax_found` holds of the extension's bytes
/// (every bundled set is the same, so the set is left out), and records
/// how the syntax was found.
#[verifier::external_body]
fn syntax_by_extension<'a>(set: &'a BundledSyntaxes, extension: &str) -> (r: Option<BundledSyntax<'a>>)
    ensures
        (r is Some) == extension_syntax_found(extension.spec_bytes()),
        r matches Some(s) ==> s@ == SyntaxKey::Extension(extension.spec_bytes()),
{
    match set.set.find_syntax_by_extension(extension) {
        Some(syntax) => Some(BundledSyntax { syntax, key: Ghost(SyntaxKey::Extension(extension.spec_bytes())) }),
        None => None,
    }
}

/// The bundled syntax of the given name, if any.
///
/// Calls `SyntaxSet::find_syntax_by_name`. Claims that it finds one exactly
/// when `named_syntax_found` holds of the name, and records how the syntax
/// was found.
#[verifier::external_body]
fn syntax_by_name<'a>(set: &'a BundledSyntaxes, name: &str) -> (r: Option<BundledSyntax<'a>>)
    ensures
        (r is Some) == named_syntax_found(name@),
        r matches Some(s) ==> s@ == SyntaxKey::Name(name@),
{
    match set.set.find_syntax_by_name(name) {
        Some(syntax) => Some(BundledSyntax { syntax, key: Ghost(SyntaxKey::Name(name@)) }),
        None => None,
    }
}

/// A parser positioned at the start of a file in a bundled syntax.
///
/// Calls `ParseState::new`, which indexes the syntax's `__start` context.
/// syntect's loader of `.sublime-syntax` definitions adds that context to
/// every syntax it builds, and the bundled set holds only such syntaxes, so
/// the lookup finds it. The parser records its syntax and that it was given
/// no line yet.
#[verifier::external_body]
fn start_parsing(syntax: &BundledSyntax) -> (r: BundledParse)
    ensures
        r@ == (syntax@, Seq::<Seq<u8>>::empty()),
{
    BundledParse { state: syntect::parsing::ParseState::new(syntax.syntax), key: Ghost(syntax@), fed: Ghost(Seq::empty()) }
}

/// An empty scope stack.
///
/// Calls `ScopeStack::new`, which holds no scope and none set aside.
#[verifier::external_body]
fn empty_stack() -> (r: ScopeStack)
    ensures
        stack_scopes(r) == Seq::<Seq<char>>::empty(),
        stack_cleared(r) == Seq::<Seq<Seq<char>>>::empty(),
{
    ScopeStack::new()
}

/// Parses one line (with its newline) and gives its scope operations.
///
/// Calls `ParseState::parse_line` with the bundled set. Every parse state was
/// started from a syntax of a bundled set, and every bundled set is the same,
/// so the set is the one the syntax came from, as syntect asks. Parsing
/// depends only on the syntax and the lines given before, which the parser
/// records: the claim is that the result is `parsed_line` of those and of
/// the line's bytes, and that the parser records the line.
#[verifier::external_body]
fn parse_line(parser: &mut BundledParse, line: &str, set: &BundledSyntaxes) -> (r: Result<ParsedLine, ParsingError>)
    ensures
        match r {
            Ok(p) => {
                &&& parsed_line(old(parser)@.0, old(parser)@.1, line.spec_bytes()) == Some(p@)
                &&& p.well_formed()
                &&& final(parser)@ == (old(parser)@.0, old(parser)@.1.push(line.spec_bytes()))
            },
            Err(_) => parsed_line(old(parser)@.0, old(parser)@.1, line.spec_bytes()) is None,
        },
{
    match parser.state.parse_line(line, &set.set) {
        Ok(pairs) => {
            let changes = Ghost(parsed_line(parser.key@, parser.fed@, line.spec_bytes()).unwrap());
            parser.fed = Ghost(parser.fed@.push(line.spec_bytes()));
            let (offsets, ops): (Vec<usize>, Vec<ScopeStackOp>) = pairs.into_iter().unzip();
            Ok(ParsedLine { offsets, ops, changes })
        },
        Err(e) => Err(e),
    }
}

/// Applies operation `k` of a parsed line, counting from one, to a stack.
///
/// Calls `ScopeStack::apply`, which (as its source shows) changes the
/// stack's scopes and those set aside as `apply_change` says, and fails,
/// leaving the stack as it was, when it is to put back scopes and none were
/// set aside.
#[verifier::external_body]
fn apply_op(stack: &mut ScopeStack, line: &ParsedLine, k: usize) -> (r: Result<(), ScopeError>)
    requires
        line.well_formed(),
        1 <= k <= line@.len(),
    ensures
        match apply_change(stack_state(*old(stack)), line@[k - 1].1) {
            Some(s) => r is Ok && stack_state(*final(stack)) == s,
            None => r is Err && stack_state(*final(stack)) == stack_state(*old(stack)),
        },
{
    stack.apply(&line.ops[k - 1])
}

/// A scope selector read from text.
///
/// Calls `ScopeSelector::from_str`. Claims that it reads one exactly when
/// `selector_parses` holds of the text, and records the text.
#[verifier::external_body]
fn scope_selector(text: &str) -> (r: Result<NamedSelector, ParseScopeError>)
    ensures
        (r is Ok) == selector_parses(text@),
        r matches Ok(s) ==> s@ == text@,
{
    match ScopeSelector::from_str(text) {
        Ok(selector) => Ok(NamedSelector { selector, text: Ghost(text@) }),
        Err(e) => Err(e),
    }
}

/// Whether a selector matches the scopes on a stack.
///
/// Calls `ScopeSelector::does_match` on the stack's scopes, which compares
/// scopes by their atoms, so by their names: the claim is that it matches
/// exactly when `selector_match` holds of the selector's text and the names.
#[verifier::external_body]
fn selector_matches(selector: &NamedSelector, stack: &ScopeStack) -> (r: bool)
    ensures
        r == selector_match(selector@, stack_scopes(*stack)),
{
    selector.selector.does_match(stack.as_slice()).is_some()
}

/// The selectors, in the order they are tried, with the token each stands
/// for: the first that matches decides.
pub open spec fn selector_table() -> Seq<(Seq<char>, SyntaxToken)> {
    seq![
        ("invalid"@, SyntaxToken::Invalid),
        ("comment"@, SyntaxToken::Comment),
        ("string"@, SyntaxToken::String),
        ("constant.numeric"@, SyntaxToken::Number),
        ("entity.name.function"@, SyntaxToken::Function),
        ("entity.name.type"@, SyntaxToken::Type),
        ("variable.other.member"@, SyntaxToken::Property),
        ("entity.name.tag"@, SyntaxToken::Tag),
        ("entity.other.attribute-name"@, SyntaxToken::Attribute),
        ("keyword.operator"@, SyntaxToken::Operator),
        ("keyword"@, SyntaxToken::Keyword),
        ("constant"@, SyntaxToken::Constant),
        ("variable"@, SyntaxToken::Variable),
        ("punctuation"@, SyntaxToken::Punctuation),
    ]
}

/// Whether every selector of the table reads.
pub open spec fn selectors_parse() -> bool {
    forall|k: int| 0 <= k < selector_table().len() ==> selector_parses(#[trigger] selector_table()[k].0)
}

/// The token of the first selector from position `i` of a table on that
/// matches scopes with these names, if any.
pub open spec fn first_match_from(table: Seq<(Seq<char>, SyntaxToken)>, scopes: Seq<Seq<char>>, i: int) -> Option<SyntaxToken>
    decreases table.len() - i,
{
    if i < 0 || i >= table.len() {
        None
    } else if selector_match(table[i].0, scopes) {
        Some(table[i].1)
    } else {
        first_match_from(table, scopes, i + 1)
    }
}

/// The token of the first selector of a table that matches scopes with these
/// names, if any.
pub open spec fn first_match(table: Seq<(Seq<char>, SyntaxToken)>, scopes: Seq<Seq<char>>) -> Option<SyntaxToken> {
    first_match_from(table, scopes, 0)
}

/// The selectors of the tokens, in the order they are tried.
struct Selectors {
    table: Vec<(NamedSelector, SyntaxToken)>,
}

impl Selectors {
    /// The selectors are those of `selector_table`, in its order.
    spec fn holds_table(&self) -> bool {
        &&& self.table@.len() == selector_table().len()
        &&& forall|k: int| 0 <= k < self.table@.len() ==> (#[trigger] self.table@[k]).0@ == selector_table()[k].0 && self.table@[k].1 == selector_table()[k].1
    }

    /// The selectors of `selector_table`; fails when one does not read.
    fn new() -> (r: Result<Selectors, HighlightError>)
        ensures
            (r is Ok) == selectors_parse(),
            r matches Ok(s) ==> s.holds_table(),
            r matches Err(e) ==> e == HighlightError::InvalidSelector,
    {
        let names: [(&str, SyntaxToken); 14] = [
            ("invalid", SyntaxToken::Invalid),
            ("comment", SyntaxToken::Comment),
            ("string", SyntaxToken::String),
            ("constant.numeric", SyntaxToken::Number),
            ("entity.name.function", SyntaxToken::Function),
            ("entity.name.type", SyntaxToken::Type),
            ("variable.other.member", SyntaxToken::Property),
            ("entity.name.tag", SyntaxToken::Tag),
            ("entity.other.attribute-name", SyntaxToken::Attribute),
            ("keyword.operator", SyntaxToken::Operator),
            ("keyword", SyntaxToken::Keyword),
            ("constant", SyntaxToken::Constant),
            ("variable", SyntaxToken::Variable),
            ("punctuation", SyntaxToken::Punctuation),
        ];
        let mut table: Vec<(NamedSelector, SyntaxToken)> = Vec::new();
        let mut i: usize = 0;
        while i < 14
            invariant
                i <= 14,
                table@.len() == i,
                forall|k: int| 0 <= k < 14 ==> (#[trigger] names@[k]).0@ == selector_table()[k].0 && names@[k].1 == selector_table()[k].1,
                forall|k: int| 0 <= k < i ==> (#[trigger] table@[k]).0@ == selector_table()[k].0 && table@[k].1 == selector_table()[k].1,
                forall|k: int| 0 <= k < i ==> selector_parses(#[trigger] selector_table()[k].0),
            decreases 14 - i,
        {
            let (text, token) = names[i];
            match scope_selector(text) {
                Ok(sel) => table.push((sel, token)),
                Err(_) => {
                    assert(!selector_parses(selector_table()[i as int].0));
                    return Err(HighlightError::InvalidSelector);
                },
            }
            i = i + 1;
        }
        Ok(Selectors { table })
    }

    /// The token of the first selector that matches the stack, if any.
    fn token(&self, stack: &ScopeStack) -> (r: Option<SyntaxToken>)
        requires
            self.holds_table(),
        ensures
            r == first_match(selector_table(), stack_scopes(*stack)),
    {
        let ghost scopes = stack_scopes(*stack);
        let mut i: usize = 0;
        while i < self.table.len()
            invariant
                self.holds_table(),
                scopes == stack_scopes(*stack),
                i <= self.table@.len(),
                first_match(selector_table(), scopes) == first_match_from(selector_table(), scopes, i as int),
            decreases self.table.len() - i,
        {
            assert(self.table@[i as int].0@ == selector_table()[i as int].0 && self.table@[i as int].1 == selector_table()[i as int].1);
            if selector_matches(&self.table[i].0, stack) {
                return Some(self.table[i].1);
            }
            i = i + 1;
        }
        None
    }
}

/// Whether spans lie in order within a line whose code has `len` bytes after
/// the one-byte diff prefix: each is nonempty and within positions `1` to
/// `len + 1`, each starts at or after the end of the one before, and touching
/// spans differ in token.
pub open spec fn well_placed(spans: Seq<HighlightSpan>, len: int) -> bool {
    &&& forall|k: int| 0 <= k < spans.len() ==> 1 <= (#[trigger] spans[k]).range.start < spans[k].range.end <= len + 1
    &&& forall|a: int, b: int| #![trigger spans[a], spans[b]] 0 <= a < b < spans.len() ==> spans[a].range.end <= spans[b].range.start
    &&& forall|a: int, b: int|
        #![trigger spans[a], spans[b]]
        0 <= a && a + 1 == b && b < spans.len() && spans[a].range.end == spans[b].range.start ==> spans[a].token != spans[b].token
}

/// Whether spans start and end on character boundaries of the code they
/// lie in; span positions count the one-byte diff prefix, so position `p`
/// is position `p - 1` of the code.
pub open spec fn on_boundaries(spans: Seq<HighlightSpan>, code: Seq<u8>) -> bool {
    forall|k: int|
        0 <= k < spans.len() ==> is_char_boundary(code, (#[trigger] spans[k]).range.start - 1) && is_char_boundary(
            code,
            spans[k].range.end - 1,
        )
}

/// Whether spans start and end on character boundaries of a diff line.
pub open spec fn on_line_boundaries(spans: Seq<HighlightSpan>, line: Seq<u8>) -> bool {
    forall|k: int|
        0 <= k < spans.len() ==> is_char_boundary(line, (#[trigger] spans[k]).range.start as int) && is_char_boundary(
            line,
            spans[k].range.end as int,
        )
}

/// The UTF-8 encoding of joined characters joins their encodings.
proof fn lemma_encode_concat(a: Seq<char>, b: Seq<char>)
    ensures
        encode_utf8(a + b) == encode_utf8(a) + encode_utf8(b),
    decreases a.len(),
{
    if a.len() == 0 {
        assert(a + b =~= b);
        assert(encode_utf8(a) + encode_utf8(b) =~= encode_utf8(b));
    } else {
        lemma_encode_concat(a.drop_first(), b);
        assert((a + b).drop_first() =~= a.drop_first() + b);
        assert((a + b)[0] == a[0]);
        assert(encode_utf8(a + b) =~= encode_utf8(a) + encode_utf8(b));
    }
}

/// A character boundary of a text within its first part is one of that part.
proof fn lemma_boundary_of_prefix(a: Seq<u8>, b: Seq<u8>, p: int)
    requires
        valid_utf8(a),
        valid_utf8(a + b),
        0 <= p <= a.len(),
        is_char_boundary(a + b, p),
    ensures
        is_char_boundary(a, p),
{
    is_char_boundary_start_end_of_seq(a);
    if p < a.len() {
        is_char_boundary_iff_not_is_continuation_byte(a + b, p);
        is_char_boundary_iff_not_is_continuation_byte(a, p);
        assert((a + b)[p] == a[p]);
    }
}

/// A character boundary of the code of a diff line, shifted past the
/// one-byte prefix, is a character boundary of the line.
proof fn lemma_boundary_after_prefix(line: Seq<u8>, p: int)
    requires
        valid_utf8(line),
        line.len() >= 1,
        is_char_boundary(line, 1),
        0 <= p <= line.len() - 1,
        is_char_boundary(line.subrange(1, line.len() as int), p),
    ensures
        is_char_boundary(line, p + 1),
{
    let code = line.subrange(1, line.len() as int);
    valid_utf8_split(line, 1);
    is_char_boundary_start_end_of_seq(line);
    if p + 1 < line.len() {
        is_char_boundary_iff_not_is_continuation_byte(line, p + 1);
        is_char_boundary_iff_not_is_continuation_byte(code, p);
        assert(code[p] == line[p + 1]);
    }
}

/// Spans on the code's boundaries lie on the line's boundaries.
proof fn lemma_spans_on_line(spans: Seq<HighlightSpan>, line: Seq<u8>)
    requires
        valid_utf8(line),
        well_placed(spans, code_bytes(line).len() as int),
        on_boundaries(spans, code_bytes(line)),
    ensures
        on_line_boundaries(spans, line),
{
    assert forall|k: int| 0 <= k < spans.len() implies is_char_boundary(line, (#[trigger] spans[k]).range.start as int)
        && is_char_boundary(line, spans[k].range.end as int) by {
        let sp = spans[k];
        assert(1 <= sp.range.start < sp.range.end <= code_bytes(line).len() + 1);
        lemma_boundary_after_prefix(line, sp.range.start - 1);
        lemma_boundary_after_prefix(line, sp.range.end - 1);
    }
}

/// Whether an offset lies within a line, on a character boundary.
#[verifier::opaque]
pub open spec fn boundary_in(line: Seq<u8>, p: int) -> bool {
    p <= line.len() && is_char_boundary(line, p)
}

/// The offsets of scope operations lie on character boundaries of the line,
/// in nondecreasing order and within it.
pub open spec fn offsets_fit(offsets: Seq<usize>, line: Seq<u8>) -> bool {
    &&& forall|k: int| 0 <= k < offsets.len() ==> boundary_in(line, #[trigger] offsets[k] as int)
    &&& forall|a: int, b: int| #![trigger offsets[a], offsets[b]] 0 <= a < b < offsets.len() ==> offsets[a] <= offsets[b]
}

/// Where region `k` of a line split at the operation offsets starts: the line
/// start for the first region, the offset of operation `k - 1` after.
pub open spec fn region_start(offsets: Seq<usize>, k: int) -> int {
    if k == 0 {
        0
    } else {
        offsets[k - 1] as int
    }
}

/// Where region `k` of a line split at the operation offsets ends: the
/// offset of operation `k`, or the line end for the last region.
pub open spec fn region_end(offsets: Seq<usize>, line_len: int, k: int) -> int {
    if k == offsets.len() {
        line_len
    } else {
        offsets[k] as int
    }
}

/// How many offsets are at most `p`: the region that position `p` lies in.
pub open spec fn count_at_most(offsets: Seq<usize>, p: int) -> int
    decreases offsets.len(),
{
    if offsets.len() == 0 {
        0
    } else {
        count_at_most(offsets.drop_last(), p) + if offsets.last() <= p {
            1int
        } else {
            0int
        }
    }
}

/// When the first `k` offsets are at most `p` and the others are above it,
/// `k` of them are at most `p`.
proof fn lemma_count_split(offsets: Seq<usize>, p: int, k: int)
    requires
        0 <= k <= offsets.len(),
        forall|j: int| 0 <= j < k ==> offsets[j] <= p,
        forall|j: int| k <= j < offsets.len() ==> offsets[j] > p,
    ensures
        count_at_most(offsets, p) == k,
    decreases offsets.len(),
{
    if offsets.len() > 0 {
        let rest = offsets.drop_last();
        if k == offsets.len() {
            lemma_count_split(rest, p, k - 1);
        } else {
            lemma_count_split(rest, p, k);
        }
    }
}

/// A position within a nonempty region `k` lies in region `k`: `k` offsets
/// are at most it.
proof fn lemma_in_region(offsets: Seq<usize>, line: Seq<u8>, k: int, p: int)
    requires
        offsets_fit(offsets, line),
        0 <= k <= offsets.len(),
        region_start(offsets, k) <= p < region_end(offsets, line.len() as int, k),
    ensures
        count_at_most(offsets, p) == k,
{
    assert forall|j: int| 0 <= j < k implies offsets[j] <= p by {
        if j < k - 1 {
            assert(offsets[j] <= offsets[k - 1]);
        }
    }
    assert forall|j: int| k <= j < offsets.len() implies offsets[j] > p by {
        if k < j {
            assert(offsets[k] <= offsets[j]);
        }
    }
    lemma_count_split(offsets, p, k);
}

/// The smaller of two integers.
pub open spec fn min_int(a: int, b: int) -> int {
    if a <= b {
        a
    } else {
        b
    }
}

/// Walking over region `k` of a line whose code is `code`: from code
/// position `at`, the smaller of where the region starts and the code's end,
/// the walk moves by the part of the region within the code to the smaller
/// of where the region ends and the code's end, which is a character
/// boundary of the code.
proof fn lemma_region_step(offsets: Seq<usize>, source: Seq<u8>, code: Seq<u8>, k: int, at: int, visible: int)
    requires
        offsets_fit(offsets, source),
        valid_utf8(code),
        valid_utf8(source),
        source.len() >= code.len(),
        exists|rest: Seq<u8>| source == code + rest,
        0 <= k <= offsets.len(),
        at == min_int(region_start(offsets, k), code.len() as int),
        visible == min_int(region_end(offsets, source.len() as int, k) - region_start(offsets, k), code.len() - at),
    ensures
        region_start(offsets, k) <= region_end(offsets, source.len() as int, k) <= source.len(),
        at + visible == min_int(region_end(offsets, source.len() as int, k), code.len() as int),
        is_char_boundary(code, at + visible),
        k < offsets.len() ==> region_start(offsets, k + 1) == region_end(offsets, source.len() as int, k),
{
    reveal(boundary_in);
    let rest = choose|rest: Seq<u8>| source == code + rest;
    let re = region_end(offsets, source.len() as int, k);
    let rs = region_start(offsets, k);
    if k > 0 {
        assert(boundary_in(source, offsets[k - 1] as int));
    }
    if k < offsets.len() {
        assert(boundary_in(source, offsets[k] as int));
        if k > 0 {
            assert(offsets[k - 1] <= offsets[k]);
        }
    }
    assert(rs <= re);
    is_char_boundary_start_end_of_seq(code);
    if re < code.len() {
        assert(k < offsets.len());
        lemma_boundary_of_prefix(code, rest, re);
    }
}

/// Whether all offsets of the operations fit the line.
fn check_offsets(offsets: &Vec<usize>, line: &str) -> (r: bool)
    ensures
        r == offsets_fit(offsets@, line.spec_bytes()),
{
    let n = line.as_bytes().len();
    let mut k: usize = 0;
    while k < offsets.len()
        invariant
            k <= offsets@.len(),
            n == line.spec_bytes().len(),
            forall|j: int| 0 <= j < k ==> boundary_in(line.spec_bytes(), #[trigger] offsets@[j] as int),
            forall|a: int, b: int| #![trigger offsets@[a], offsets@[b]] 0 <= a < b < k ==> offsets@[a] <= offsets@[b],
        decreases offsets.len() - k,
    {
        let p = offsets[k];
        if p > n {
            proof {
                reveal(boundary_in);
                assert(!boundary_in(line.spec_bytes(), offsets@[k as int] as int));
            }
            return false;
        }
        if !line.is_char_boundary(p) {
            proof {
                reveal(boundary_in);
                assert(!boundary_in(line.spec_bytes(), offsets@[k as int] as int));
            }
            return false;
        }
        if k > 0 && offsets[k - 1] > p {
            proof {
                assert(offsets@[k - 1] > offsets@[k as int]);
            }
            return false;
        }
        proof {
            reveal(boundary_in);
            assert(boundary_in(line.spec_bytes(), offsets@[k as int] as int));
        }
        k = k + 1;
    }
    true
}

/// A span that starts at or after the end of the last one, and differs from
/// it in token where they touch, keeps spans in order.
proof fn lemma_push_span(spans: Seq<HighlightSpan>, s: HighlightSpan, len: int)
    requires
        well_placed(spans, len),
        1 <= s.range.start < s.range.end <= len + 1,
        spans.len() > 0 ==> spans.last().range.end <= s.range.start,
        spans.len() > 0 && spans.last().range.end == s.range.start ==> spans.last().token != s.token,
    ensures
        well_placed(spans.push(s), len),
{
    let t = spans.push(s);
    let n = spans.len();
    assert forall|k: int| 0 <= k < t.len() implies 1 <= (#[trigger] t[k]).range.start < t[k].range.end <= len + 1 by {
        if k < n {
            assert(t[k] == spans[k]);
        }
    }
    assert forall|a: int, b: int| #![trigger t[a], t[b]] 0 <= a < b < t.len() implies t[a].range.end <= t[b].range.start by {
        assert(t[a] == spans[a]);
        if b < n {
            assert(t[b] == spans[b]);
        } else {
            assert(spans[a].range.end <= spans[n - 1].range.start || a == n - 1);
            assert(spans[n - 1].range.start < spans[n - 1].range.end);
        }
    }
    assert forall|a: int, b: int|
        #![trigger t[a], t[b]]
        0 <= a && a + 1 == b && b < t.len() && t[a].range.end == t[b].range.start implies t[a].token != t[b].token by {
        assert(t[a] == spans[a]);
        if b < n {
            assert(t[b] == spans[b]);
        }
    }
}

/// Extending the last span to a later end keeps spans in order.
proof fn lemma_extend_last(spans: Seq<HighlightSpan>, end: usize, len: int)
    requires
        well_placed(spans, len),
        spans.len() > 0,
        spans.last().range.end <= end <= len + 1,
    ensures
        well_placed(spans.update(spans.len() - 1, HighlightSpan { range: spans.last().range.start..end, token: spans.last().token }), len),
{
    let n = spans.len();
    let t = spans.update(n - 1, HighlightSpan { range: spans.last().range.start..end, token: spans.last().token });
    assert forall|k: int| 0 <= k < t.len() implies 1 <= (#[trigger] t[k]).range.start < t[k].range.end <= len + 1 by {
        if k < n - 1 {
            assert(t[k] == spans[k]);
        }
    }
    assert forall|a: int, b: int| #![trigger t[a], t[b]] 0 <= a < b < t.len() implies t[a].range.end <= t[b].range.start by {
        assert(t[a] == spans[a]);
        if b < n - 1 {
            assert(t[b] == spans[b]);
        } else {
            assert(t[b].range.start == spans[b].range.start);
        }
    }
    assert forall|a: int, b: int|
        #![trigger t[a], t[b]]
        0 <= a && a + 1 == b && b < t.len() && t[a].range.end == t[b].range.start implies t[a].token != t[b].token by {
        assert(t[a] == spans[a]);
        assert(t[b].range.start == spans[b].range.start && t[b].token == spans[b].token);
    }
}

/// The bytes a line of code is parsed as: the code and a newline.
pub open spec fn source_of(code: Seq<u8>) -> Seq<u8> {
    code.push(10u8)
}

/// The scope state after applying the first `n` changes of a parsed line;
/// `None` when one of them fails.
pub open spec fn apply_first(s: ScopeState, changes: Seq<(usize, ScopeChange)>, n: int) -> Option<ScopeState>
    decreases n,
{
    if n <= 0 {
        Some(s)
    } else {
        match apply_first(s, changes, n - 1) {
            Some(t) => apply_change(t, changes[n - 1].1),
            None => None,
        }
    }
}

/// Once a change fails, applying more of them fails too.
proof fn lemma_apply_stuck(s: ScopeState, changes: Seq<(usize, ScopeChange)>, m: int, n: int)
    requires
        0 <= m <= n,
        apply_first(s, changes, m) is None,
    ensures
        apply_first(s, changes, n) is None,
    decreases n - m,
{
    if m < n {
        lemma_apply_stuck(s, changes, m, n - 1);
    }
}

/// What highlighting one line of code does to the scope state of its side:
/// the line is parsed as `source` by a parser in `syntax` that was given
/// `earlier` before, its offsets must fit it, and all its changes are
/// applied. `None` when one of these fails.
pub open spec fn line_step(syntax: SyntaxKey, earlier: Seq<Seq<u8>>, source: Seq<u8>, s: ScopeState) -> Option<ScopeState> {
    match parsed_line(syntax, earlier, source) {
        Some(changes) => if offsets_fit(offsets_of(changes), source) {
            apply_first(s, changes, changes.len() as int)
        } else {
            None
        },
        None => None,
    }
}

/// The token of code position `p` of such a line: that of the first selector
/// to match the scopes of the region `p` lies in, the scopes being those of
/// the state after the changes up to that region.
pub open spec fn line_token(syntax: SyntaxKey, earlier: Seq<Seq<u8>>, source: Seq<u8>, s: ScopeState, p: int) -> Option<SyntaxToken> {
    match parsed_line(syntax, earlier, source) {
        Some(changes) => match apply_first(s, changes, count_at_most(offsets_of(changes), p)) {
            Some(t) => first_match(selector_table(), t.scopes),
            None => None,
        },
        None => None,
    }
}

/// Whether a span covers code position `p` (span positions count the
/// one-byte diff prefix).
pub open spec fn span_covers(span: HighlightSpan, p: int) -> bool {
    span.range.start - 1 <= p < span.range.end - 1
}

/// Whether the spans of such a line hold exactly its tokens below code
/// position `upto`: every position a span covers has the span's token, and
/// every position below `upto` that has a token lies in a span.
pub open spec fn spans_match(
    spans: Seq<HighlightSpan>,
    syntax: SyntaxKey,
    earlier: Seq<Seq<u8>>,
    source: Seq<u8>,
    s: ScopeState,
    upto: int,
) -> bool {
    &&& forall|k: int, p: int|
        0 <= k < spans.len() && #[trigger] span_covers(spans[k], p) ==> line_token(syntax, earlier, source, s, p) == Some(
            spans[k].token,
        )
    &&& forall|p: int|
        0 <= p < upto && (#[trigger] line_token(syntax, earlier, source, s, p)) is Some ==> exists|k: int|
            0 <= k < spans.len() && #[trigger] span_covers(spans[k], p)
}

/// Every code position of a region, within the code, has the token of the
/// scope state after the changes up to that region.
proof fn lemma_region_tokens(
    syntax: SyntaxKey,
    earlier: Seq<Seq<u8>>,
    source: Seq<u8>,
    s: ScopeState,
    changes: Seq<(usize, ScopeChange)>,
    k: int,
    lo: int,
    hi: int,
    t: Option<SyntaxToken>,
)
    requires
        parsed_line(syntax, earlier, source) == Some(changes),
        offsets_fit(offsets_of(changes), source),
        0 <= k <= changes.len(),
        region_start(offsets_of(changes), k) == lo,
        lo <= hi <= region_end(offsets_of(changes), source.len() as int, k),
        apply_first(s, changes, k) matches Some(st) && first_match(selector_table(), st.scopes) == t,
    ensures
        forall|p: int| lo <= p < hi ==> #[trigger] line_token(syntax, earlier, source, s, p) == t,
{
    assert forall|p: int| lo <= p < hi implies #[trigger] line_token(syntax, earlier, source, s, p) == t by {
        lemma_in_region(offsets_of(changes), source, k, p);
    }
}

/// The newline is the one byte 10.
proof fn lemma_newline_bytes()
    ensures
        encode_utf8("\n"@) == seq![10u8],
{
    reveal_strlit("\n");
    let c = "\n"@[0];
    assert(c as u32 == 10);
    assert(10u32 & 0x7Fu32 == 10u32) by (bit_vector);
    assert(encode_scalar(c as u32) =~= seq![10u8]);
    assert("\n"@.drop_first() =~= Seq::<char>::empty());
    assert(encode_utf8("\n"@.drop_first()) =~= Seq::<u8>::empty());
    assert(encode_utf8("\n"@) =~= seq![10u8]);
}

/// Highlights the code of one diff line, continuing the parse that earlier
/// lines of the same side of the file started.
#[verifier::rlimit(60)]
fn highlight_line(
    content: &str,
    parser: &mut BundledParse,
    stack: &mut ScopeStack,
    syntaxes: &BundledSyntaxes,
    selectors: &Selectors,
) -> (r: Result<Vec<HighlightSpan>, HighlightError>)
    requires
        content.spec_bytes().len() < usize::MAX,
        selectors.holds_table(),
    ensures
        (r is Ok) == line_step(old(parser)@.0, old(parser)@.1, source_of(content.spec_bytes()), stack_state(*old(stack))) is Some,
        r matches Ok(spans) ==> well_placed(spans@, content.spec_bytes().len() as int) && on_boundaries(
            spans@,
            content.spec_bytes(),
        ),
        r matches Ok(spans) ==> spans_match(
            spans@,
            old(parser)@.0,
            old(parser)@.1,
            source_of(content.spec_bytes()),
            stack_state(*old(stack)),
            content.spec_bytes().len() as int,
        ),
        r is Ok ==> final(parser)@ == (old(parser)@.0, old(parser)@.1.push(source_of(content.spec_bytes()))),
        r is Ok ==> line_step(old(parser)@.0, old(parser)@.1, source_of(content.spec_bytes()), stack_state(*old(stack)))
            == Some(stack_state(*final(stack))),
{
    let ghost key = parser@.0;
    let ghost earlier = parser@.1;
    let ghost start = stack_state(*stack);
    let mut source = String::new();
    source.append(content);
    source.append("\n");
    let ghost cbytes = content.spec_bytes();
    let source = source.as_str();
    let ghost sbytes = source.spec_bytes();
    proof {
        lemma_encode_concat(content@, "\n"@);
        encode_utf8_valid_utf8(content@);
        encode_utf8_valid_utf8(source@);
        lemma_newline_bytes();
        assert(sbytes == cbytes + encode_utf8("\n"@));
        assert(sbytes =~= source_of(cbytes));
    }
    let parsed = match parse_line(parser, source, syntaxes) {
        Ok(p) => p,
        Err(_) => return Err(HighlightError::ParseLine),
    };
    let ghost changes = parsed@;
    let ghost offs = offsets_of(changes);
    if !check_offsets(&parsed.offsets, source) {
        return Err(HighlightError::BadOffsets);
    }
    let n = parsed.offsets.len();
    let slen = source.as_bytes().len();
    let len = content.as_bytes().len();
    let mut offset: usize = 1;
    let mut spans: Vec<HighlightSpan> = Vec::new();
    let mut k: usize = 0;
    loop
        invariant_except_break
            k <= n,
            apply_first(start, changes, if k == 0 { 0 } else { k - 1 }) == Some(stack_state(*stack)),
            k <= n ==> offset - 1 == min_int(region_start(offs, k as int), len as int),
        invariant
            key == old(parser)@.0,
            earlier == old(parser)@.1,
            start == stack_state(*old(stack)),
            parsed.well_formed(),
            changes == parsed@,
            offs == offsets_of(changes),
            parsed.offsets@ == offs,
            n == offs.len(),
            parsed_line(key, earlier, sbytes) == Some(changes),
            selectors.holds_table(),
            len == cbytes.len(),
            slen == sbytes.len(),
            len < usize::MAX,
            cbytes == content.spec_bytes(),
            sbytes == source.spec_bytes(),
            sbytes == cbytes + encode_utf8("\n"@),
            sbytes == source_of(cbytes),
            valid_utf8(cbytes),
            valid_utf8(sbytes),
            offsets_fit(offs, sbytes),
            1 <= offset <= len + 1,
            is_char_boundary(cbytes, offset - 1),
            well_placed(spans@, len as int),
            on_boundaries(spans@, cbytes),
            spans_match(spans@, key, earlier, sbytes, start, offset - 1),
            spans@.len() > 0 ==> spans@.last().range.end <= offset,
        ensures
            apply_first(start, changes, n as int) == Some(stack_state(*stack)),
            offset - 1 == len,
        decreases n - k,
    {
        let ghost rs = region_start(offs, k as int);
        let ghost re = region_end(offs, slen as int, k as int);
        proof {
            lemma_region_step(offs, sbytes, cbytes, k as int, min_int(rs, len as int), min_int(re - rs, len - min_int(rs, len as int)));
        }
        let region_start_at = if k == 0 {
            0
        } else {
            parsed.offsets[k - 1]
        };
        let region_end_at = if k == n {
            slen
        } else {
            parsed.offsets[k]
        };
        let region_len = region_end_at - region_start_at;
        if k >= 1 {
            if apply_op(stack, &parsed, k).is_err() {
                proof {
                    assert(apply_first(start, changes, k as int) is None);
                    lemma_apply_stuck(start, changes, k as int, n as int);
                    assert(changes.len() == n);
                    assert(line_step(key, earlier, sbytes, start) is None);
                }
                return Err(HighlightError::ApplyScope);
            }
        }
        assert(apply_first(start, changes, k as int) == Some(stack_state(*stack)));
        let room = len - (offset - 1);
        let visible = if region_len < room {
            region_len
        } else {
            room
        };
        if visible > 0 {
            let tok = selectors.token(stack);
            let ghost lo = offset - 1;
            let ghost hi = offset - 1 + visible;
            let ghost before = spans@;
            proof {
                lemma_region_tokens(key, earlier, sbytes, start, changes, k as int, lo, hi, tok);
            }
            match tok {
                Some(token) => {
                    let end = offset + visible;
                    let n_spans = spans.len();
                    if n_spans > 0 && spans[n_spans - 1].token == token && spans[n_spans - 1].range.end == offset {
                        let start_at = spans[n_spans - 1].range.start;
                        proof {
                            lemma_extend_last(before, end, len as int);
                        }
                        spans.set(n_spans - 1, HighlightSpan { range: start_at..end, token });
                        proof {
                            assert(spans@ =~= before.update(n_spans - 1, HighlightSpan { range: start_at..end, token }));
                            assert forall|j: int| 0 <= j < spans@.len() implies is_char_boundary(cbytes, (#[trigger] spans@[j]).range.start - 1)
                                && is_char_boundary(cbytes, spans@[j].range.end - 1) by {
                                if j < n_spans - 1 {
                                    assert(spans@[j] == before[j]);
                                } else {
                                    assert(before[j].range.start == start_at);
                                }
                            }
                            assert forall|j: int, q: int| 0 <= j < spans@.len() && #[trigger] span_covers(spans@[j], q) implies line_token(
                                key,
                                earlier,
                                sbytes,
                                start,
                                q,
                            ) == Some(spans@[j].token) by {
                                if j < n_spans - 1 {
                                    assert(spans@[j] == before[j]);
                                } else if q < lo {
                                    assert(span_covers(before[j], q));
                                }
                            }
                            assert forall|q: int| 0 <= q < hi && (#[trigger] line_token(key, earlier, sbytes, start, q)) is Some implies exists|j: int|
                                0 <= j < spans@.len() && #[trigger] span_covers(spans@[j], q) by {
                                if q < lo {
                                    let w = choose|w: int| 0 <= w < before.len() && #[trigger] span_covers(before[w], q);
                                    if w < n_spans - 1 {
                                        assert(spans@[w] == before[w]);
                                    }
                                    assert(span_covers(spans@[w], q));
                                } else {
                                    assert(span_covers(spans@[n_spans - 1], q));
                                }
                            }
                        }
                    } else {
                        proof {
                            lemma_push_span(spans@, HighlightSpan { range: offset..end, token }, len as int);
                        }
                        spans.push(HighlightSpan { range: offset..end, token });
                        proof {
                            assert forall|j: int| 0 <= j < spans@.len() implies is_char_boundary(cbytes, (#[trigger] spans@[j]).range.start - 1)
                                && is_char_boundary(cbytes, spans@[j].range.end - 1) by {
                                if j < n_spans {
                                    assert(spans@[j] == before[j]);
                                }
                            }
                            assert forall|j: int, q: int| 0 <= j < spans@.len() && #[trigger] span_covers(spans@[j], q) implies line_token(
                                key,
                                earlier,
                                sbytes,
                                start,
                                q,
                            ) == Some(spans@[j].token) by {
                                if j < n_spans {
                                    assert(spans@[j] == before[j]);
                                }
                            }
                            assert forall|q: int| 0 <= q < hi && (#[trigger] line_token(key, earlier, sbytes, start, q)) is Some implies exists|j: int|
                                0 <= j < spans@.len() && #[trigger] span_covers(spans@[j], q) by {
                                if q < lo {
                                    let w = choose|w: int| 0 <= w < before.len() && #[trigger] span_covers(before[w], q);
                                    assert(spans@[w] == before[w]);
                                    assert(span_covers(spans@[w], q));
                                } else {
                                    assert(span_covers(spans@[n_spans as int], q));
                                }
                            }
                        }
                    }
                },
                None => {
                    proof {
                        assert forall|q: int| 0 <= q < hi && (#[trigger] line_token(key, earlier, sbytes, start, q)) is Some implies exists|j: int|
                            0 <= j < spans@.len() && #[trigger] span_covers(spans@[j], q) by {
                            if q >= lo {
                                assert(line_token(key, earlier, sbytes, start, q) == tok);
                            }
                        }
                    }
                },
            }
        }
        offset = offset + visible;
        if k == n {
            break;
        }
        k = k + 1;
    }
    Ok(spans)
}

/// The length of a byte range, or zero when it is reversed.
pub open spec fn range_len(r: Range<usize>) -> int {
    if r.start <= r.end {
        r.end - r.start
    } else {
        0
    }
}

/// The bytes of the lines of file `f`.
pub open spec fn file_bytes(lines: Seq<DiffLine>, f: int) -> int
    decreases lines.len(),
{
    if lines.len() == 0 {
        0
    } else {
        file_bytes(lines.drop_last(), f) + if lines.last().file_index == Some(f as usize) {
            range_len(lines.last().range)
        } else {
            0
        }
    }
}

/// The number of lines of file `f`.
pub open spec fn file_line_count(lines: Seq<DiffLine>, f: int) -> int
    decreases lines.len(),
{
    if lines.len() == 0 {
        0
    } else {
        file_line_count(lines.drop_last(), f) + if lines.last().file_index == Some(f as usize) {
            1int
        } else {
            0int
        }
    }
}

/// Counting one more line adds it to its file's bytes and lines.
proof fn lemma_file_step(lines: Seq<DiffLine>, i: int, k: int)
    requires
        0 <= i < lines.len(),
    ensures
        file_line_count(lines.take(i + 1), k) == file_line_count(lines.take(i), k) + if lines[i].file_index == Some(k as usize) {
            1int
        } else {
            0int
        },
        file_bytes(lines.take(i + 1), k) == file_bytes(lines.take(i), k) + if lines[i].file_index == Some(k as usize) {
            range_len(lines[i].range)
        } else {
            0
        },
{
    assert(lines.take(i + 1).drop_last() =~= lines.take(i));
    assert(lines.take(i + 1).last() == lines[i]);
}

/// Whether file `f` is small enough to highlight.
pub open spec fn file_enabled(lines: Seq<DiffLine>, f: int) -> bool {
    file_bytes(lines, f) <= MAX_HIGHLIGHTED_FILE_BYTES && file_line_count(lines, f) <= MAX_HIGHLIGHTED_FILE_LINES
}

/// How many of the first `n` files are too large to highlight.
pub open spec fn skipped_count(lines: Seq<DiffLine>, n: int) -> int
    decreases n,
{
    if n <= 0 {
        0
    } else {
        skipped_count(lines, n - 1) + if file_enabled(lines, n - 1) {
            0int
        } else {
            1int
        }
    }
}

/// Whether a line kind carries code.
pub open spec fn is_code_line(kind: LineKind) -> bool {
    kind == LineKind::Addition || kind == LineKind::Deletion || kind == LineKind::Context
}

/// Whether line `i` of a document is highlighted: a code line of a file small
/// enough.
pub open spec fn highlightable(d: DiffDocument, i: int) -> bool {
    match d.lines@[i].file_index {
        Some(f) => file_enabled(d.lines@, f as int) && is_code_line(d.lines@[i].kind),
        None => false,
    }
}

/// Whether no line of a document is to be highlighted.
pub open spec fn no_highlightable_line(d: DiffDocument) -> bool {
    forall|i: int| 0 <= i < d.lines@.len() ==> !highlightable(d, i)
}

/// Whether every line's file, if any, is one of the document's files.
pub open spec fn files_indexed(d: DiffDocument) -> bool {
    d.files_indexed()
}

/// Whether every line's file, if any, is one of the document's files.
pub fn files_indexed_at(d: &DiffDocument) -> (r: bool)
    ensures
        r == files_indexed(*d),
{
    let n = d.lines.len();
    let mut k: usize = 0;
    while k < n
        invariant
            n == d.lines@.len(),
            k <= n,
            forall|i: int| 0 <= i < k ==> ((#[trigger] d.lines@[i]).file_index matches Some(f) ==> f < d.files@.len()),
        decreases n - k,
    {
        if let Some(f) = d.lines[k].file_index {
            if f >= d.files.len() {
                return false;
            }
        }
        k = k + 1;
    }
    true
}

/// The size of a range.
fn range_size(r: &Range<usize>) -> (n: usize)
    ensures
        n == range_len(*r),
{
    if r.start <= r.end {
        r.end - r.start
    } else {
        0
    }
}

/// The code of a diff line: its bytes after the one-byte prefix, or nothing
/// when the line is empty.
pub open spec fn code_bytes(line: Seq<u8>) -> Seq<u8> {
    if line.len() >= 1 && is_char_boundary(line, 1) {
        line.subrange(1, line.len() as int)
    } else {
        Seq::empty()
    }
}

/// The length of the code of line `i`.
pub open spec fn code_len(d: DiffDocument, i: int) -> int {
    code_bytes(d.text_bytes().subrange(d.lines@[i].range.start as int, d.lines@[i].range.end as int)).len() as int
}

/// Whether highlighting results fit a document: one span list per line,
/// the number of files too large to highlight, spans only on code lines of
/// files small enough, spans in order within each line's code, touching
/// spans of different tokens, and every span starting and ending on a
/// character boundary of its line.
pub open spec fn fits_document(d: DiffDocument, h: HighlightedDiff) -> bool {
    &&& h.lines@.len() == d.lines@.len()
    &&& h.skipped_files == skipped_count(d.lines@, d.files@.len() as int)
    &&& forall|i: int| 0 <= i < h.lines@.len() ==> (#[trigger] h.lines@[i])@.len() > 0 ==> highlightable(d, i)
    &&& forall|i: int| 0 <= i < h.lines@.len() ==> well_placed((#[trigger] h.lines@[i])@, code_len(d, i))
    &&& forall|i: int| 0 <= i < h.lines@.len() ==> on_line_boundaries((#[trigger] h.lines@[i])@, line_bytes(d, i))
}

/// The bytes of line `i` of a document, its diff prefix included.
pub open spec fn line_bytes(d: DiffDocument, i: int) -> Seq<u8> {
    d.text_bytes().subrange(d.lines@[i].range.start as int, d.lines@[i].range.end as int)
}

/// The code of a diff line.
fn code_of(raw: &str) -> (c: &str)
    ensures
        c.spec_bytes() == code_bytes(raw.spec_bytes()),
{
    if raw.as_bytes().len() >= 1 && raw.is_char_boundary(1) {
        let (_, rest) = raw.split_at(1);
        rest
    } else {
        proof {
            reveal_strlit("");
        }
        ""
    }
}

/// The extension a file's syntax is found by: that of its name, when the
/// name has one, it is UTF-8 and a bundled syntax is registered for it.
pub open spec fn found_extension(path: Option<String>) -> Option<Seq<u8>> {
    match path {
        Some(p) => match file_name(encode_utf8(p@)) {
            Some(name) => match extension_of_name(name) {
                Some(ext) => if valid_utf8(ext) && extension_syntax_found(ext) {
                    Some(ext)
                } else {
                    None
                },
                None => None,
            },
            None => None,
        },
        None => None,
    }
}

/// How the syntax of a file is found: by its extension, or else the plain
/// text syntax by name.
pub open spec fn path_syntax(path: Option<String>) -> SyntaxKey {
    match found_extension(path) {
        Some(ext) => SyntaxKey::Extension(ext),
        None => SyntaxKey::Name("Plain Text"@),
    }
}

/// Whether a syntax is found for a file.
pub open spec fn path_syntax_found(path: Option<String>) -> bool {
    found_extension(path) is Some || named_syntax_found("Plain Text"@)
}

/// The syntax of a file: the one registered for the extension of its name,
/// when that is UTF-8 and known, and plain text otherwise.
fn syntax_for<'a>(set: &'a BundledSyntaxes, path: &Option<String>) -> (r: Result<BundledSyntax<'a>, HighlightError>)
    ensures
        (r is Ok) == path_syntax_found(*path),
        r matches Ok(s) ==> s@ == path_syntax(*path),
        r matches Err(e) ==> e == HighlightError::MissingPlainText,
{
    let by_extension = match path {
        Some(p) => match crate::path::file_name_of(p.as_str().as_bytes()) {
            Some(name) => match crate::path::name_extension(name.as_slice()) {
                Some(ext) => if crate::bytes::is_utf8(ext.as_slice()) {
                    let e = crate::bytes::string_from_utf8(ext);
                    syntax_by_extension(set, e.as_str())
                } else {
                    None
                },
                None => None,
            },
            None => None,
        },
        None => None,
    };
    assert(by_extension is Some == found_extension(*path) is Some);
    match by_extension {
        Some(s) => Ok(s),
        None => match syntax_by_name(set, "Plain Text") {
            Some(s) => Ok(s),
            None => Err(HighlightError::MissingPlainText),
        },
    }
}

/// The parsers of one file: one for its old side, one for its new side,
/// each with its scope stack.
struct FileParsers {
    old_parse: BundledParse,
    old_scope: ScopeStack,
    new_parse: BundledParse,
    new_scope: ScopeStack,
}

/// How the syntax of file `f` of a document is found.
pub open spec fn file_syntax(d: DiffDocument, f: int) -> SyntaxKey {
    path_syntax(d.files@[f])
}

/// Whether lines of this kind go to the new side of their file's parse
/// (`new_side`) or to the old side: additions to the new, deletions to the
/// old, context lines to both.
pub open spec fn feeds(kind: LineKind, new_side: bool) -> bool {
    if new_side {
        kind == LineKind::Addition || kind == LineKind::Context
    } else {
        kind == LineKind::Deletion || kind == LineKind::Context
    }
}

/// The bytes line `i` of a document is parsed as: its code and a newline.
pub open spec fn line_source(d: DiffDocument, i: int) -> Seq<u8> {
    source_of(code_bytes(line_bytes(d, i)))
}

/// What the first `i` lines of a document give to one side of the parse of
/// file `f`: the sources of its code lines of that side, when the file is
/// small enough to highlight.
pub open spec fn side_history(d: DiffDocument, f: int, new_side: bool, i: int) -> Seq<Seq<u8>>
    decreases i,
{
    if i <= 0 {
        Seq::empty()
    } else {
        let before = side_history(d, f, new_side, i - 1);
        let l = d.lines@[i - 1];
        if l.file_index == Some(f as usize) && file_enabled(d.lines@, f) && feeds(l.kind, new_side) {
            before.push(line_source(d, i - 1))
        } else {
            before
        }
    }
}

/// The scope state of one side after highlighting its lines in order, from
/// an empty stack; `None` when a line fails.
pub open spec fn run_side(syntax: SyntaxKey, lines: Seq<Seq<u8>>) -> Option<ScopeState>
    decreases lines.len(),
{
    if lines.len() == 0 {
        Some(empty_state())
    } else {
        match run_side(syntax, lines.drop_last()) {
            Some(s) => line_step(syntax, lines.drop_last(), lines.last(), s),
            None => None,
        }
    }
}

/// Whether everything highlighting a document needs goes through: the
/// selectors read, a syntax is found for every file, and every line of each
/// side of every file parses, fits and applies.
pub open spec fn all_lines_parse(d: DiffDocument) -> bool {
    &&& selectors_parse()
    &&& forall|f: int| 0 <= f < d.files@.len() ==> path_syntax_found(#[trigger] d.files@[f])
    &&& forall|f: int|
        0 <= f < d.files@.len() ==> run_side(file_syntax(d, f), #[trigger] side_history(d, f, true, d.lines@.len() as int)) is Some
    &&& forall|f: int|
        0 <= f < d.files@.len() ==> run_side(file_syntax(d, f), #[trigger] side_history(d, f, false, d.lines@.len() as int)) is Some
}

/// The token of code position `p` of line `i` of a document, on the side
/// its spans come from (the new side but for deletions).
pub open spec fn token_at(d: DiffDocument, i: int, p: int) -> Option<SyntaxToken> {
    match d.lines@[i].file_index {
        Some(f) => {
            let new_side = d.lines@[i].kind != LineKind::Deletion;
            let syntax = file_syntax(d, f as int);
            let earlier = side_history(d, f as int, new_side, i);
            match run_side(syntax, earlier) {
                Some(s) => line_token(syntax, earlier, line_source(d, i), s, p),
                None => None,
            }
        },
        None => None,
    }
}

/// Whether the spans of line `i` of a document hold exactly its tokens:
/// every code position a span covers has the span's token, and, on a line
/// that is highlighted, every position of its code that has a token lies in
/// a span.
pub open spec fn line_spans_fit(d: DiffDocument, i: int, spans: Seq<HighlightSpan>) -> bool {
    &&& forall|k: int, p: int|
        0 <= k < spans.len() && #[trigger] span_covers(spans[k], p) ==> token_at(d, i, p) == Some(spans[k].token)
    &&& highlightable(d, i) ==> forall|p: int|
        0 <= p < code_len(d, i) && (#[trigger] token_at(d, i, p)) is Some ==> exists|k: int|
            0 <= k < spans.len() && #[trigger] span_covers(spans[k], p)
}

/// Whether the spans of every line of highlighting results hold exactly the
/// line's tokens.
pub open spec fn tokens_fit(d: DiffDocument, h: HighlightedDiff) -> bool {
    forall|i: int| 0 <= i < h.lines@.len() ==> line_spans_fit(d, i, #[trigger] h.lines@[i]@)
}

/// Whether every addition, deletion and context line of a file small enough
/// to highlight is highlighted (context lines as the new side reads them,
/// like additions): every position of its code that has a token lies in a
/// span carrying that token.
pub open spec fn code_lines_highlighted(d: DiffDocument, h: HighlightedDiff) -> bool {
    forall|i: int, p: int|
        0 <= i < h.lines@.len() && (d.lines@[i].kind == LineKind::Addition || d.lines@[i].kind == LineKind::Deletion || d.lines@[i].kind == LineKind::Context) && (d.lines@[i].file_index matches Some(f)
            && file_enabled(d.lines@, f as int)) && 0 <= p < code_len(d, i) && (#[trigger] token_at(d, i, p)) is Some
            ==> exists|k: int|
            0 <= k < h.lines@[i]@.len() && #[trigger] span_covers(h.lines@[i]@[k], p) && Some(h.lines@[i]@[k].token)
                == token_at(d, i, p)
}

/// Addition, deletion and context lines are all highlighted.
proof fn lemma_code_lines_highlighted(d: DiffDocument, h: HighlightedDiff)
    requires
        h.lines@.len() == d.lines@.len(),
        tokens_fit(d, h),
    ensures
        code_lines_highlighted(d, h),
{
    assert forall|i: int, p: int|
        0 <= i < h.lines@.len() && (d.lines@[i].kind == LineKind::Addition || d.lines@[i].kind == LineKind::Deletion || d.lines@[i].kind == LineKind::Context) && (d.lines@[i].file_index matches Some(f)
            && file_enabled(d.lines@, f as int)) && 0 <= p < code_len(d, i) && (#[trigger] token_at(d, i, p)) is Some
        implies exists|k: int|
        0 <= k < h.lines@[i]@.len() && #[trigger] span_covers(h.lines@[i]@[k], p) && Some(h.lines@[i]@[k].token) == token_at(
            d,
            i,
            p,
        ) by {
        assert(highlightable(d, i));
        assert(line_spans_fit(d, i, h.lines@[i]@));
        let k = choose|k: int| 0 <= k < h.lines@[i]@.len() && #[trigger] span_covers(h.lines@[i]@[k], p);
        assert(token_at(d, i, p) == Some(h.lines@[i]@[k].token));
    }
}

/// The lines a side was given by the first `i` lines of a document begin
/// those given by the first `m`.
proof fn lemma_history_prefix(d: DiffDocument, f: int, new_side: bool, i: int, m: int)
    requires
        0 <= i <= m <= d.lines@.len(),
    ensures
        side_history(d, f, new_side, i).len() <= side_history(d, f, new_side, m).len(),
        side_history(d, f, new_side, m).take(side_history(d, f, new_side, i).len() as int) == side_history(d, f, new_side, i),
    decreases m - i,
{
    if i < m {
        lemma_history_prefix(d, f, new_side, i, m - 1);
        let a = side_history(d, f, new_side, i);
        let b = side_history(d, f, new_side, m - 1);
        let c = side_history(d, f, new_side, m);
        if c.len() > b.len() {
            assert(c == b.push(line_source(d, m - 1)));
            assert(c.take(a.len() as int) =~= b.take(a.len() as int));
        }
    } else {
        assert(side_history(d, f, new_side, i).take(side_history(d, f, new_side, i).len() as int) =~= side_history(d, f, new_side, i));
    }
}

/// Once a side fails on a line, it fails on every longer run of lines.
proof fn lemma_run_stuck(syntax: SyntaxKey, lines: Seq<Seq<u8>>, m: int)
    requires
        0 <= m <= lines.len(),
        run_side(syntax, lines.take(m)) is None,
    ensures
        run_side(syntax, lines) is None,
    decreases lines.len() - m,
{
    if m == lines.len() {
        assert(lines.take(m) =~= lines);
    } else {
        assert(lines.drop_last().take(m) =~= lines.take(m));
        lemma_run_stuck(syntax, lines.drop_last(), m);
    }
}

/// A line that one side of its file is given, and that highlights, moves
/// that side on by the line.
proof fn lemma_side_step(d: DiffDocument, f: int, new_side: bool, i: int, s: ScopeState)
    requires
        0 <= i < d.lines@.len(),
        d.lines@[i].file_index == Some(f as usize),
        file_enabled(d.lines@, f),
        feeds(d.lines@[i].kind, new_side),
        run_side(file_syntax(d, f), side_history(d, f, new_side, i)) == Some(s),
    ensures
        side_history(d, f, new_side, i + 1) == side_history(d, f, new_side, i).push(line_source(d, i)),
        run_side(file_syntax(d, f), side_history(d, f, new_side, i + 1)) == line_step(
            file_syntax(d, f),
            side_history(d, f, new_side, i),
            line_source(d, i),
            s,
        ),
{
    let h = side_history(d, f, new_side, i);
    let g = side_history(d, f, new_side, i + 1);
    assert(g == h.push(line_source(d, i)));
    assert(g.drop_last() =~= h);
}

/// A line that fails on one side of its file leaves the document short of
/// `all_lines_parse`.
proof fn lemma_side_fails(d: DiffDocument, f: int, new_side: bool, i: int, s: ScopeState)
    requires
        0 <= i < d.lines@.len(),
        0 <= f < d.files@.len(),
        d.lines@[i].file_index == Some(f as usize),
        file_enabled(d.lines@, f),
        feeds(d.lines@[i].kind, new_side),
        run_side(file_syntax(d, f), side_history(d, f, new_side, i)) == Some(s),
        line_step(file_syntax(d, f), side_history(d, f, new_side, i), line_source(d, i), s) is None,
    ensures
        !all_lines_parse(d),
{
    let n = d.lines@.len() as int;
    lemma_side_step(d, f, new_side, i, s);
    lemma_history_prefix(d, f, new_side, i + 1, n);
    let all = side_history(d, f, new_side, n);
    lemma_run_stuck(file_syntax(d, f), all, side_history(d, f, new_side, i + 1).len() as int);
    if new_side {
        assert(run_side(file_syntax(d, f), side_history(d, f, true, n)) is None);
    } else {
        assert(run_side(file_syntax(d, f), side_history(d, f, false, n)) is None);
    }
}

/// Highlighting with a given set of syntaxes.
fn highlight_with_set(document: &DiffDocument, syntaxes: &BundledSyntaxes) -> (r: Result<HighlightedDiff, HighlightError>)
    requires
        document.well_formed(),
        files_indexed(*document),
    ensures
        (r is Ok) == (no_highlightable_line(*document) || all_lines_parse(*document)),
        r matches Ok(h) ==> fits_document(*document, h) && tokens_fit(*document, h),
        r matches Ok(h) ==> code_lines_highlighted(*document, h),
{
    let lines = &document.lines;
    let nfiles = document.files.len();
    let mut bytes: Vec<usize> = Vec::new();
    let mut counts: Vec<usize> = Vec::new();
    let mut f: usize = 0;
    while f < nfiles
        invariant
            f <= nfiles,
            bytes@.len() == f,
            counts@.len() == f,
            forall|k: int| 0 <= k < f ==> bytes@[k] == 0 && counts@[k] == 0,
        decreases nfiles - f,
    {
        bytes.push(0);
        counts.push(0);
        f = f + 1;
    }
    let mut i: usize = 0;
    while i < lines.len()
        invariant
            nfiles == document.files@.len(),
            files_indexed(*document),
            lines == &document.lines,
            i <= lines@.len(),
            bytes@.len() == nfiles,
            counts@.len() == nfiles,
            forall|k: int| 0 <= k < nfiles ==> #[trigger] bytes@[k] == (if file_bytes(lines@.take(i as int), k) <= usize::MAX {
                file_bytes(lines@.take(i as int), k)
            } else {
                usize::MAX as int
            }),
            forall|k: int| 0 <= k < nfiles ==> #[trigger] counts@[k] == file_line_count(lines@.take(i as int), k),
            forall|k: int| 0 <= k < nfiles ==> #[trigger] file_line_count(lines@.take(i as int), k) <= i,
        decreases lines.len() - i,
    {
        proof {
            assert(lines@.take(i + 1).drop_last() =~= lines@.take(i as int));
            assert(lines@.take(i + 1).last() == lines@[i as int]);
            assert forall|k: int| 0 <= k < nfiles implies #[trigger] file_line_count(lines@.take(i + 1), k)
                <= i + 1 && file_line_count(lines@.take(i + 1), k) == file_line_count(lines@.take(i as int), k) + if lines@[i as int].file_index == Some(k as usize) { 1int } else { 0int }
                && file_bytes(lines@.take(i + 1), k) == file_bytes(lines@.take(i as int), k) + if lines@[i as int].file_index == Some(k as usize) { range_len(lines@[i as int].range) } else { 0 } by {
                lemma_file_step(lines@, i as int, k);
                assert(file_line_count(lines@.take(i as int), k) <= i);
            }
        }
        match lines[i].file_index {
            Some(fi) => {
                let n = range_size(&lines[i].range);
                let b = bytes[fi].saturating_add(n);
                let c = counts[fi] + 1;
                bytes.set(fi, b);
                counts.set(fi, c);
            },
            None => {},
        }
        i = i + 1;
    }
    proof {
        assert(lines@.take(lines@.len() as int) =~= lines@);
    }
    let mut enabled: Vec<bool> = Vec::new();
    let mut skipped: usize = 0;
    let mut f: usize = 0;
    while f < nfiles
        invariant
            nfiles == document.files@.len(),
            lines == &document.lines,
            f <= nfiles,
            bytes@.len() == nfiles,
            counts@.len() == nfiles,
            forall|k: int| 0 <= k < nfiles ==> #[trigger] bytes@[k] == (if file_bytes(lines@, k) <= usize::MAX {
                file_bytes(lines@, k)
            } else {
                usize::MAX as int
            }),
            forall|k: int| 0 <= k < nfiles ==> #[trigger] counts@[k] == file_line_count(lines@, k),
            enabled@.len() == f,
            forall|k: int| 0 <= k < f ==> #[trigger] enabled@[k] == file_enabled(lines@, k),
            skipped == skipped_count(lines@, f as int),
            skipped <= f,
        decreases nfiles - f,
    {
        let on = bytes[f] <= MAX_HIGHLIGHTED_FILE_BYTES && counts[f] <= MAX_HIGHLIGHTED_FILE_LINES;
        enabled.push(on);
        if !on {
            skipped = skipped + 1;
        }
        f = f + 1;
    }
    let mut any = false;
    let mut j: usize = 0;
    while j < lines.len()
        invariant
            files_indexed(*document),
            nfiles == document.files@.len(),
            lines == &document.lines,
            j <= lines@.len(),
            enabled@.len() == nfiles,
            forall|k: int| 0 <= k < nfiles ==> #[trigger] enabled@[k] == file_enabled(lines@, k),
            !any ==> forall|k: int| 0 <= k < j ==> !highlightable(*document, k),
            any ==> exists|k: int| 0 <= k < j && highlightable(*document, k),
        decreases lines.len() - j,
    {
        let kind = lines[j].kind;
        let code_kind = kind == LineKind::Addition || kind == LineKind::Deletion || kind == LineKind::Context;
        match lines[j].file_index {
            Some(fi) => {
                assert(fi < nfiles);
                if enabled[fi] && code_kind {
                    any = true;
                    assert(highlightable(*document, j as int));
                }
            },
            None => {},
        }
        j = j + 1;
    }
    if !any {
        let mut out: Vec<Vec<HighlightSpan>> = Vec::new();
        let mut i: usize = 0;
        while i < lines.len()
            invariant
                lines == &document.lines,
                i <= lines@.len(),
                out@.len() == i,
                forall|k: int| 0 <= k < i ==> (#[trigger] out@[k])@.len() == 0,
            decreases lines.len() - i,
        {
            out.push(Vec::new());
            i = i + 1;
        }
        let h = HighlightedDiff { lines: out, skipped_files: skipped };
        proof {
            assert(tokens_fit(*document, h));
            lemma_code_lines_highlighted(*document, h);
        }
        return Ok(h);
    }

    assert(!no_highlightable_line(*document));
    let selectors = match Selectors::new() {
        Ok(s) => s,
        Err(e) => return Err(e),
    };
    let mut parsers: Vec<FileParsers> = Vec::new();
    let mut f: usize = 0;
    while f < nfiles
        invariant
            nfiles == document.files@.len(),
            f <= nfiles,
            parsers@.len() == f,
            !no_highlightable_line(*document),
            selectors_parse(),
            forall|k: int| 0 <= k < f ==> path_syntax_found(#[trigger] document.files@[k]),
            forall|k: int|
                0 <= k < f ==> (#[trigger] parsers@[k]).new_parse@ == (file_syntax(*document, k), Seq::<Seq<u8>>::empty())
                    && parsers@[k].old_parse@ == (file_syntax(*document, k), Seq::<Seq<u8>>::empty())
                    && stack_state(parsers@[k].new_scope) == empty_state() && stack_state(parsers@[k].old_scope) == empty_state(),
        decreases nfiles - f,
    {
        let syntax = match syntax_for(syntaxes, &document.files[f]) {
            Ok(s) => s,
            Err(e) => {
                assert(!path_syntax_found(document.files@[f as int]));
                return Err(e);
            },
        };
        parsers.push(FileParsers {
            old_parse: start_parsing(&syntax),
            old_scope: empty_stack(),
            new_parse: start_parsing(&syntax),
            new_scope: empty_stack(),
        });
        f = f + 1;
    }
    let mut out: Vec<Vec<HighlightSpan>> = Vec::new();
    let mut i: usize = 0;
    while i < lines.len()
        invariant
            document.well_formed(),
            files_indexed(*document),
            !no_highlightable_line(*document),
            selectors.holds_table(),
            selectors_parse(),
            nfiles == document.files@.len(),
            lines == &document.lines,
            i <= lines@.len(),
            enabled@.len() == nfiles,
            parsers@.len() == nfiles,
            forall|k: int| 0 <= k < nfiles ==> #[trigger] enabled@[k] == file_enabled(lines@, k),
            forall|k: int| 0 <= k < nfiles ==> path_syntax_found(#[trigger] document.files@[k]),
            forall|k: int|
                0 <= k < nfiles ==> (#[trigger] parsers@[k]).new_parse@ == (file_syntax(*document, k), side_history(*document, k, true, i as int))
                    && parsers@[k].old_parse@ == (file_syntax(*document, k), side_history(*document, k, false, i as int))
                    && run_side(file_syntax(*document, k), side_history(*document, k, true, i as int)) == Some(stack_state(parsers@[k].new_scope))
                    && run_side(file_syntax(*document, k), side_history(*document, k, false, i as int)) == Some(stack_state(parsers@[k].old_scope)),
            out@.len() == i,
            forall|k: int| 0 <= k < i ==> (#[trigger] out@[k])@.len() > 0 ==> highlightable(*document, k),
            forall|k: int| 0 <= k < i ==> well_placed((#[trigger] out@[k])@, code_len(*document, k)),
            forall|k: int| 0 <= k < i ==> on_line_boundaries((#[trigger] out@[k])@, line_bytes(*document, k)),
            forall|a: int| 0 <= a < i ==> line_spans_fit(*document, a, #[trigger] out@[a]@),
        decreases lines.len() - i,
    {
        let line = &lines[i];
        let kind = line.kind;
        let code_kind = kind == LineKind::Addition || kind == LineKind::Deletion || kind == LineKind::Context;
        let mut spans: Vec<HighlightSpan> = Vec::new();
        let ghost before = parsers@;
        match line.file_index {
            Some(fi) => if enabled[fi] && code_kind {
                let raw = document.line_text(line);
                let content = code_of(raw);
                let ghost key = file_syntax(*document, fi as int);
                let ghost hn = side_history(*document, fi as int, true, i as int);
                let ghost ho = side_history(*document, fi as int, false, i as int);
                let ghost sn = stack_state(parsers@[fi as int].new_scope);
                let ghost so = stack_state(parsers@[fi as int].old_scope);
                assert(source_of(content.spec_bytes()) == line_source(*document, i as int));
                let p = &mut parsers[fi];
                if kind == LineKind::Addition {
                    spans = match highlight_line(content, &mut p.new_parse, &mut p.new_scope, syntaxes, &selectors) {
                        Ok(s) => s,
                        Err(e) => {
                            proof {
                                lemma_side_fails(*document, fi as int, true, i as int, sn);
                            }
                            return Err(e);
                        },
                    };
                    proof {
                        lemma_side_step(*document, fi as int, true, i as int, sn);
                    }
                } else if kind == LineKind::Deletion {
                    spans = match highlight_line(content, &mut p.old_parse, &mut p.old_scope, syntaxes, &selectors) {
                        Ok(s) => s,
                        Err(e) => {
                            proof {
                                lemma_side_fails(*document, fi as int, false, i as int, so);
                            }
                            return Err(e);
                        },
                    };
                    proof {
                        lemma_side_step(*document, fi as int, false, i as int, so);
                    }
                } else {
                    spans = match highlight_line(content, &mut p.new_parse, &mut p.new_scope, syntaxes, &selectors) {
                        Ok(s) => s,
                        Err(e) => {
                            proof {
                                lemma_side_fails(*document, fi as int, true, i as int, sn);
                            }
                            return Err(e);
                        },
                    };
                    proof {
                        lemma_side_step(*document, fi as int, true, i as int, sn);
                    }
                    match highlight_line(content, &mut p.old_parse, &mut p.old_scope, syntaxes, &selectors) {
                        Ok(_) => {},
                        Err(e) => {
                            proof {
                                lemma_side_fails(*document, fi as int, false, i as int, so);
                            }
                            return Err(e);
                        },
                    }
                    proof {
                        lemma_side_step(*document, fi as int, false, i as int, so);
                    }
                }
                proof {
                    encode_utf8_valid_utf8(document.text@);
                    crate::diff::lemma_ascii_delimited_valid(
                        document.text_bytes(),
                        line.range.start as int,
                        line.range.end as int,
                    );
                    lemma_spans_on_line(spans@, line_bytes(*document, i as int));
                    let hist = if kind == LineKind::Deletion { ho } else { hn };
                    let st = if kind == LineKind::Deletion { so } else { sn };
                    let src = line_source(*document, i as int);
                    assert(spans_match(spans@, key, hist, src, st, code_len(*document, i as int)));
                    assert forall|q: int| #[trigger] token_at(*document, i as int, q) == line_token(key, hist, src, st, q) by {}
                    assert forall|b: int, q: int| 0 <= b < spans@.len() && #[trigger] span_covers(spans@[b], q) implies token_at(
                        *document,
                        i as int,
                        q,
                    ) == Some(spans@[b].token) by {
                        assert(token_at(*document, i as int, q) == line_token(key, hist, src, st, q));
                    }
                    assert forall|q: int| 0 <= q < code_len(*document, i as int) && (#[trigger] token_at(*document, i as int, q)) is Some implies exists|b: int|
                        0 <= b < spans@.len() && #[trigger] span_covers(spans@[b], q) by {
                        assert(token_at(*document, i as int, q) == line_token(key, hist, src, st, q));
                    }
                }
            },
            None => {},
        }
        proof {
            assert forall|k: int| 0 <= k < nfiles && k != lines@[i as int].file_index.unwrap_or(nfiles) implies #[trigger] side_history(*document, k, true, i + 1)
                == side_history(*document, k, true, i as int) && side_history(*document, k, false, i + 1) == side_history(*document, k, false, i as int) by {
            }
        }
        out.push(spans);
        i = i + 1;
    }
    proof {
        let n = lines@.len() as int;
        assert(n == i);
        assert forall|k: int| 0 <= k < nfiles implies run_side(file_syntax(*document, k), #[trigger] side_history(*document, k, true, n))
            is Some && run_side(file_syntax(*document, k), side_history(*document, k, false, n)) is Some by {
            assert(parsers@[k].new_parse@ == (file_syntax(*document, k), side_history(*document, k, true, i as int)));
        }
        assert forall|k: int| 0 <= k < nfiles implies run_side(file_syntax(*document, k), #[trigger] side_history(*document, k, false, n))
            is Some by {
            assert(parsers@[k].new_parse@ == (file_syntax(*document, k), side_history(*document, k, true, i as int)));
        }
        assert(all_lines_parse(*document));
    }
    let h = HighlightedDiff { lines: out, skipped_files: skipped };
    proof {
        lemma_code_lines_highlighted(*document, h);
    }
    Ok(h)
}

/// The syntax definitions to highlight with.
pub struct Highlighter {
    syntaxes: BundledSyntaxes,
}

impl Highlighter {
    /// A highlighter with the syntaxes bundled with `two_face`.
    pub fn new() -> Highlighter {
        Highlighter { syntaxes: bundled_syntaxes() }
    }

    /// Highlights the code lines of a document: succeeds exactly when no line
    /// is to be highlighted or everything `all_lines_parse` asks goes
    /// through, and then every span carries the token of where it starts.
    pub fn highlight(&self, document: &DiffDocument) -> (r: Result<HighlightedDiff, HighlightError>)
        requires
            document.well_formed(),
            files_indexed(*document),
        ensures
            (r is Ok) == (no_highlightable_line(*document) || all_lines_parse(*document)),
            r matches Ok(h) ==> fits_document(*document, h) && tokens_fit(*document, h),
        r matches Ok(h) ==> code_lines_highlighted(*document, h),
    {
        highlight_with_set(document, &self.syntaxes)
    }
}

/// Highlights the code lines of a document with the bundled syntaxes.
pub fn highlight(document: &DiffDocument) -> (r: Result<HighlightedDiff, HighlightError>)
    requires
        document.well_formed(),
        files_indexed(*document),
    ensures
        (r is Ok) == (no_highlightable_line(*document) || all_lines_parse(*document)),
        r matches Ok(h) ==> fits_document(*document, h) && tokens_fit(*document, h),
        r matches Ok(h) ==> code_lines_highlighted(*document, h),
{
    Highlighter::new().highlight(document)
}

} // verus!
