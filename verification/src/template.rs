//! Templates that can be rendered without harm, and templates that cannot be rendered at all.
//!
//! The template engine gives up on some templates by a panic: it divides by a number of columns
//! that may be 0, adds without a look at the limits of its numbers, reads numbers that do not fit,
//! or goes as deep as a template is nested. Which templates are free of that is told from their
//! text, on the safe side: the text is read once from left to right, and every tag and every output
//! in it must be of a simple form. On the way it is told which templates surely fail: those that are
//! not well-formed, and those that print what nothing names.

use vstd::prelude::*;
use vstd::string::*;

use crate::text;

verus! {

/// How many tokens a tag or an output may have.
pub const MAX_TOKENS: u16 = 200;

/// How long a name may be.
pub const MAX_NAME: usize = 200;

/// How many digits a whole number may have; all such numbers fit into 64 bits.
pub const MAX_DIGITS: usize = 18;

/// How long a number may be that is reckoned with; 32 bits and such a number can be added and
/// multiplied within 64 bits.
pub const MAX_OPERAND: usize = 9;

/// How long a text or a list may be whose length is reckoned with.
pub const MAX_LENGTH: usize = 1_000_000_000;

/// How many digits the ends of a range may have.
pub const MAX_RANGE_DIGITS: usize = 4;

/// How deep blocks may be nested.
pub const MAX_DEPTH: u16 = 64;

/// What a tag or an output is made of.
#[derive(Debug, Clone, Copy, PartialEq, Eq, Structural)]
pub enum Token {
    Close,
    Number,
    Text,
    Word,
    Range,
    Pipe,
    Colon,
    Comma,
    Sign,
    /// A name that goes on after the name of a constant.
    Split,
    /// What is not told apart.
    Odd,
    /// What can stand in no tag and no output.
    Bad,
}

/// White space inside a tag or an output.
pub open spec fn is_space(c: char) -> bool {
    c == ' ' || c == '\n' || c == '\r'
}

/// A digit.
pub open spec fn is_digit(c: char) -> bool {
    '0' <= c && c <= '9'
}

/// A character that a name can start with.
pub open spec fn is_name_start(c: char) -> bool {
    ('a' <= c && c <= 'z') || ('A' <= c && c <= 'Z') || c == '_'
}

/// The last two characters of a tag or of an output.
pub open spec fn closes_at(s: Seq<char>, i: int, tag: bool) -> bool {
    0 <= i && i + 1 < s.len() && s[i] == (if tag {
        '%'
    } else {
        '}'
    }) && s[i + 1] == '}'
}

/// A hyphen that belongs to a name: one that is not part of an end that also trims.
pub open spec fn hyphen_at(s: Seq<char>, i: int) -> bool {
    s[i] == '-' && !closes_at(s, i + 1, true) && !closes_at(s, i + 1, false)
}

/// The first position from one on that is no white space.
pub open spec fn skip_space(s: Seq<char>, i: int) -> int
    decreases s.len() - i,
{
    if 0 <= i < s.len() && is_space(s[i]) {
        skip_space(s, i + 1)
    } else {
        i
    }
}

/// The first position from one on that is no digit.
pub open spec fn digits_end(s: Seq<char>, i: int) -> int
    decreases s.len() - i,
{
    if 0 <= i < s.len() && is_digit(s[i]) {
        digits_end(s, i + 1)
    } else {
        i
    }
}

/// The first position from one on that does not belong to a name.
pub open spec fn name_end(s: Seq<char>, i: int) -> int
    decreases s.len() - i,
{
    if 0 <= i < s.len() && (is_name_start(s[i]) || is_digit(s[i]) || hyphen_at(s, i)) {
        name_end(s, i + 1)
    } else {
        i
    }
}

/// The position behind the next quote; nothing where there is none.
pub open spec fn quote_end(s: Seq<char>, i: int, quote: char) -> Option<int>
    decreases s.len() - i,
{
    if i < 0 || i >= s.len() {
        None
    } else if s[i] == quote {
        Some(i + 1)
    } else {
        quote_end(s, i + 1, quote)
    }
}

/// A quote.
pub open spec fn is_quote(c: char) -> bool {
    c == '\'' || c == '"'
}

/// The position behind further names after dots.
pub open spec fn names_end(s: Seq<char>, i: int) -> int
    decreases s.len() - i,
{
    if 0 <= i && i + 1 < s.len() && s[i] == '.' && is_name_start(s[i + 1]) && i < name_end(s, i + 1)
        <= s.len() {
        names_end(s, name_end(s, i + 1))
    } else {
        i
    }
}

/// The position behind what stands in brackets: a number, a text, or names with dots between them.
pub open spec fn content_end(s: Seq<char>, i: int) -> Option<int> {
    if i < 0 || i >= s.len() {
        None
    } else if is_digit(s[i]) {
        if digits_end(s, i) - i <= MAX_DIGITS {
            Some(digits_end(s, i))
        } else {
            None
        }
    } else if is_quote(s[i]) {
        quote_end(s, i + 1, s[i])
    } else if is_name_start(s[i]) {
        let end = names_end(s, name_end(s, i));
        if i <= end <= s.len() && !starts_like_constant(s.subrange(i, end)) {
            Some(end)
        } else {
            None
        }
    } else {
        None
    }
}

/// The position behind an index in brackets, from behind the opening bracket.
pub open spec fn index_end(s: Seq<char>, i: int) -> Option<int> {
    match content_end(s, skip_space(s, i)) {
        Some(e) => {
            let close = skip_space(s, e);
            if 0 <= close < s.len() && s[close] == ']' {
                Some(close + 1)
            } else {
                None
            }
        },
        None => None,
    }
}

/// The position behind what follows a name: further names after dots, and indexes in brackets.
pub open spec fn path_end(s: Seq<char>, i: int) -> Option<int>
    decreases s.len() - i,
{
    if i < 0 || i >= s.len() {
        Some(i)
    } else if s[i] == '.' && i + 1 < s.len() && is_name_start(s[i + 1]) && i < name_end(
        s,
        i + 1,
    ) <= s.len() {
        path_end(s, name_end(s, i + 1))
    } else if s[i] == '[' {
        match index_end(s, i + 1) {
            Some(e) => if e > i {
                path_end(s, e)
            } else {
                None
            },
            None => None,
        }
    } else {
        Some(i)
    }
}

/// The position behind a number, from its sign or its first digit on; nothing where it is too long.
pub open spec fn number_end(s: Seq<char>, i: int) -> Option<int> {
    let start = if s[i] == '-' || s[i] == '+' {
        i + 1
    } else {
        i
    };
    let whole = digits_end(s, start);
    if whole - start > MAX_DIGITS {
        None
    } else if whole + 1 < s.len() && s[whole] == '.' && is_digit(s[whole + 1]) {
        let end = digits_end(s, whole + 1);
        if end - whole > MAX_DIGITS {
            None
        } else {
            Some(end)
        }
    } else {
        Some(whole)
    }
}

/// The position behind a range of numbers, from its opening bracket on; nothing where its ends are
/// no short literals.
pub open spec fn range_end(s: Seq<char>, i: int) -> Option<int> {
    let first = skip_space(s, i + 1);
    let first_end = digits_end(s, first);
    let dots = skip_space(s, first_end);
    let last = skip_space(s, dots + 2);
    let last_end = digits_end(s, last);
    let close = skip_space(s, last_end);
    if 0 < first_end - first <= MAX_RANGE_DIGITS && dots + 1 < s.len() && s[dots] == '.' && s[dots
        + 1] == '.' && 0 < last_end - last <= MAX_RANGE_DIGITS && close < s.len() && s[close]
        == ')' {
        Some(close + 1)
    } else {
        None
    }
}

/// A name starts like the name of a constant.
pub open spec fn starts_like_constant(w: Seq<char>) -> bool {
    text::occurs_at(w, 0, "nil"@) || text::occurs_at(w, 0, "null"@) || text::occurs_at(
        w,
        0,
        "empty"@,
    ) || text::occurs_at(w, 0, "blank"@) || text::occurs_at(w, 0, "true"@) || text::occurs_at(
        w,
        0,
        "false"@,
    )
}

/// The name of a constant.
pub open spec fn is_constant(w: Seq<char>) -> bool {
    w == "nil"@ || w == "null"@ || w == "empty"@ || w == "blank"@ || w == "true"@ || w == "false"@
}

/// A token can end here.
pub open spec fn ends_at(s: Seq<char>, i: int, tag: bool) -> bool {
    0 <= i < s.len() && (is_space(s[i]) || s[i] == '|' || s[i] == ':' || s[i] == ',' || s[i] == '='
        || s[i] == '<' || s[i] == '>' || s[i] == '!' || closes_at(s, i, tag) || (s[i] == '-'
        && closes_at(s, i + 1, tag)))
}

/// No token can begin here, and no tag can end.
pub open spec fn dead_at(s: Seq<char>, i: int) -> bool {
    i >= s.len() || (!is_name_start(s[i]) && !is_digit(s[i]) && !is_quote(s[i]) && s[i] != '-'
        && s[i] != '+' && s[i] != '(')
}

/// A dot with a hyphen behind it, which a name may begin with.
pub open spec fn dotted_hyphen_at(s: Seq<char>, i: int) -> bool {
    i + 1 < s.len() && s[i] == '.' && s[i + 1] == '-'
}

/// A token of some kind that ends at a position, where it can end there. In an output nothing else
/// can follow on it; in a tag another token may.
pub open spec fn ended(s: Seq<char>, token: Token, e: int, tag: bool) -> (Token, int) {
    if ends_at(s, e, tag) {
        (token, e)
    } else if dotted_hyphen_at(s, e) || (tag && !dead_at(s, e)) {
        (Token::Odd, e)
    } else {
        (Token::Bad, e)
    }
}

/// The sign at a position: of two characters where it can be, else of one.
pub open spec fn sign_at(s: Seq<char>, i: int) -> (Token, int) {
    let second = i + 1 < s.len() && s[i + 1] == '=';
    if s[i] == '|' {
        (Token::Pipe, i + 1)
    } else if s[i] == ':' {
        (Token::Colon, i + 1)
    } else if s[i] == ',' {
        (Token::Comma, i + 1)
    } else if s[i] == '<' && i + 1 < s.len() && s[i + 1] == '>' {
        (Token::Sign, i + 2)
    } else if s[i] == '!' {
        if second {
            (Token::Sign, i + 2)
        } else {
            (Token::Bad, i)
        }
    } else if s[i] == '=' || s[i] == '<' || s[i] == '>' {
        if second {
            (Token::Sign, i + 2)
        } else {
            (Token::Sign, i + 1)
        }
    } else {
        (Token::Bad, i)
    }
}

/// The word at a position.
pub open spec fn word_at(s: Seq<char>, i: int, tag: bool) -> (Token, int) {
    match path_end(s, name_end(s, i)) {
        Some(e) => {
            let w = s.subrange(i, e);
            if !(i <= e <= s.len()) || w.len() > MAX_NAME {
                (Token::Odd, e)
            } else if !is_constant(w) && starts_like_constant(w) {
                (Token::Split, e)
            } else {
                ended(s, Token::Word, e, tag)
            }
        },
        None => (Token::Odd, 0),
    }
}

/// The token at a position inside a tag or an output, and the position behind it.
pub open spec fn token_at(s: Seq<char>, i: int, tag: bool) -> (Token, int) {
    if i < 0 || i >= s.len() {
        (Token::Bad, i)
    } else if closes_at(s, i, tag) {
        (Token::Close, i + 2)
    } else if s[i] == '-' && closes_at(s, i + 1, tag) {
        (Token::Close, i + 3)
    } else if is_quote(s[i]) {
        match quote_end(s, i + 1, s[i]) {
            Some(e) => ended(s, Token::Text, e, tag),
            None => (Token::Bad, i),
        }
    } else if is_digit(s[i]) || ((s[i] == '-' || s[i] == '+') && i + 1 < s.len() && is_digit(
        s[i + 1],
    )) {
        match number_end(s, i) {
            Some(e) => ended(s, Token::Number, e, tag),
            None => (Token::Odd, i),
        }
    } else if is_name_start(s[i]) {
        word_at(s, i, tag)
    } else if s[i] == '(' && tag {
        match range_end(s, i) {
            Some(e) => ended(s, Token::Range, e, tag),
            None => (Token::Odd, i),
        }
    } else if s[i] == '-' {
        (Token::Odd, i)
    } else {
        sign_at(s, i)
    }
}

/// What is known of a value before the template is rendered: that it is no number that is too large
/// to be reckoned with, that it is no larger than the sum of such numbers, that it is a list of texts,
/// or nothing.
#[derive(Debug, Clone, Copy, PartialEq, Eq, Structural)]
pub enum Known {
    Small,
    Sum,
    Texts,
    Nothing,
}

/// What a filter asks of its input and its arguments.
#[derive(Debug, Clone, Copy, PartialEq, Eq, Structural)]
pub enum FilterKind {
    Free,
    Divides,
    Reckons,
    Multiplies,
    Negates,
    Counts,
    Slices,
    Sorts,
    Dates,
}

/// What a tag does.
#[derive(Debug, Clone, Copy, PartialEq, Eq, Structural)]
pub enum TagKind {
    Plain,
    Assigns,
    Opens,
    Scopes,
    Tables,
    Continues,
    Comments,
    Quotes,
    Ends,
}

/// Where the text between tags belongs to.
#[derive(Debug, Clone, Copy, PartialEq, Eq, Structural)]
pub enum Region {
    Open,
    Comment,
    Raw,
}

/// The block that is open in a comment.
#[derive(Debug, Clone, Copy, PartialEq, Eq, Structural)]
pub enum Inner {
    Nothing,
    If,
    Unless,
    Case,
    For,
    Tablerow,
    Capture,
    Ifchanged,
}

/// What has been read last of the arguments of a tag.
#[derive(Debug, Clone, Copy, PartialEq, Eq, Structural)]
pub enum Before {
    Start,
    Value,
    Sign,
    Colon,
    Columns,
    ColumnsColon,
}

/// What may come next.
#[derive(Debug, Clone, Copy, PartialEq, Eq, Structural)]
pub enum Place {
    Text,
    Value,
    AfterValue,
    Filter,
    AfterFilter,
    Argument,
    AfterArgument,
    NamedValue,
    AfterNamedValue,
    TagName,
    TagBody,
}

/// How far a template has been read.
#[derive(Debug, Clone, Copy, PartialEq, Eq, Structural)]
pub struct Reading {
    pub place: Place,
    pub in_tag: bool,
    pub tag: TagKind,
    pub before: Before,
    pub known: Known,
    pub filter: FilterKind,
    pub named: bool,
    pub region: Region,
    pub inner: Inner,
    pub depth: u16,
    pub nesting: u16,
    pub tokens: u16,
    pub plain_line: bool,
    pub bare_line: bool,
    /// No text of the issue is a large number.
    pub calm: bool,
    /// The engine reports without harm that this tag or output is not well-formed.
    pub breakable: bool,
    /// Something before may have given a value to a name, or may have stopped the rendering.
    pub settled: bool,
    /// Something before prints what nothing names.
    pub doomed: bool,
}

/// What comes of one more token: the template is read on; the tag or the output is not well-formed;
/// or nothing is known.
#[derive(Debug, Clone, Copy, PartialEq, Eq, Structural)]
pub enum Step {
    Next(Reading),
    Malformed,
    Unsure,
}

/// What is known of a template: that it can be rendered without harm, with success or without; that
/// it fails, without harm; or nothing.
#[derive(Debug, Clone, Copy, PartialEq, Eq, Structural)]
pub enum Verdict {
    Harmless,
    Fails,
    Unsure,
}

/// A name without dots and brackets.
pub open spec fn is_simple(w: Seq<char>) -> bool {
    forall|i: int| 0 <= i < w.len() ==> (#[trigger] w[i]) != '.' && w[i] != '['
}

/// The whole number -1.
pub open spec fn is_minus_one(w: Seq<char>) -> bool {
    w.len() >= 2 && w[0] == '-' && w.last() == '1' && forall|i: int|
        1 <= i < w.len() - 1 ==> (#[trigger] w[i]) == '0'
}

/// A number that is not 0.
pub open spec fn is_nonzero(w: Seq<char>) -> bool {
    exists|i: int| 0 <= i < w.len() && '1' <= (#[trigger] w[i]) && w[i] <= '9'
}

/// A text of ASCII characters other than digits.
pub open spec fn has_no_width(w: Seq<char>) -> bool {
    forall|i: int| 0 <= i < w.len() ==> (#[trigger] w[i]) <= '\x7f' && !is_digit(w[i])
}

/// The first position from one on at which a part of a path ends.
pub open spec fn part_end(w: Seq<char>, i: int) -> int
    decreases w.len() - i,
{
    if 0 <= i < w.len() && w[i] != '.' && w[i] != '[' {
        part_end(w, i + 1)
    } else {
        i
    }
}

/// The name that a path begins with.
pub open spec fn root_of(w: Seq<char>) -> Seq<char> {
    w.subrange(0, part_end(w, 0))
}

/// The name of a field of an issue, or of the number of its fields.
pub open spec fn is_field(name: Seq<char>) -> bool {
    name == "id"@ || name == "identifier"@ || name == "title"@ || name == "description"@ || name
        == "priority"@ || name == "state"@ || name == "branch_name"@ || name == "url"@ || name
        == "labels"@ || name == "blocked_by"@ || name == "created_at"@ || name == "updated_at"@
        || name == "size"@
}

/// Nothing has this name: it is no constant, and it is neither the attempt nor the issue or one of
/// its fields.
pub open spec fn is_unknown(w: Seq<char>) -> bool {
    let end = part_end(w, 0);
    if is_constant(w) || root_of(w) == "attempt"@ {
        false
    } else if root_of(w) == "issue"@ {
        0 <= end < w.len() && w[end] == '.' && !is_field(
            w.subrange(end + 1, part_end(w, end + 1)),
        )
    } else {
        true
    }
}

/// What is known of a value in a template.
pub open spec fn known_of(token: Token, w: Seq<char>, calm: bool) -> Known {
    if token == Token::Number && w.len() <= MAX_OPERAND {
        Known::Small
    } else if token == Token::Word && (w == "attempt"@ || w == "issue.priority"@) {
        Known::Small
    } else if token == Token::Word && w == "issue.labels"@ {
        Known::Texts
    } else if token == Token::Word && calm && (root_of(w) == "issue"@ || root_of(w) == "attempt"@) {
        Known::Small
    } else {
        Known::Nothing
    }
}

/// What a filter asks.
pub open spec fn filter_kind(w: Seq<char>) -> FilterKind {
    if w == "divided_by"@ || w == "modulo"@ {
        FilterKind::Divides
    } else if w == "plus"@ || w == "minus"@ {
        FilterKind::Reckons
    } else if w == "times"@ {
        FilterKind::Multiplies
    } else if w == "size"@ {
        FilterKind::Counts
    } else if w == "abs"@ {
        FilterKind::Negates
    } else if w == "slice"@ {
        FilterKind::Slices
    } else if w == "sort"@ {
        FilterKind::Sorts
    } else if w == "date"@ {
        FilterKind::Dates
    } else {
        FilterKind::Free
    }
}

/// A filter can take an input of which this is known. Lists of texts are refused without harm by
/// those that reckon.
pub open spec fn takes_input(filter: FilterKind, known: Known) -> bool {
    match filter {
        FilterKind::Reckons => known != Known::Nothing,
        FilterKind::Multiplies => known == Known::Small || known == Known::Texts,
        FilterKind::Negates => known != Known::Nothing,
        FilterKind::Sorts => known == Known::Texts,
        _ => true,
    }
}

/// What is known of the result of a filter on an input of which something is known.
pub open spec fn result_of(filter: FilterKind, known: Known) -> Known {
    if known == Known::Nothing {
        Known::Nothing
    } else {
        match filter {
            FilterKind::Counts => Known::Small,
            FilterKind::Reckons => Known::Sum,
            FilterKind::Divides | FilterKind::Negates => known,
            _ => Known::Nothing,
        }
    }
}

/// A filter on an input of which something is known can take an argument.
pub open spec fn takes_argument(
    filter: FilterKind,
    token: Token,
    w: Seq<char>,
    known: Known,
    calm: bool,
) -> bool {
    match filter {
        FilterKind::Free => true,
        FilterKind::Counts => true,
        FilterKind::Divides => known != Known::Nothing || (token == Token::Number && !is_minus_one(
            w,
        )),
        FilterKind::Reckons => known_of(token, w, calm) != Known::Nothing,
        FilterKind::Multiplies => token == Token::Number && w.len() <= MAX_OPERAND,
        FilterKind::Slices => token == Token::Number && w.len() <= MAX_OPERAND,
        FilterKind::Dates => token == Token::Text && has_no_width(w),
        FilterKind::Negates => false,
        FilterKind::Sorts => false,
    }
}

/// What a tag does.
pub open spec fn tag_kind(w: Seq<char>) -> TagKind {
    if w == "assign"@ {
        TagKind::Assigns
    } else if w == "for"@ || w == "capture"@ {
        TagKind::Scopes
    } else if w == "tablerow"@ {
        TagKind::Tables
    } else if w == "if"@ || w == "unless"@ || w == "case"@ || w == "ifchanged"@ {
        TagKind::Opens
    } else if w == "elsif"@ {
        TagKind::Continues
    } else if w == "comment"@ {
        TagKind::Comments
    } else if w == "raw"@ {
        TagKind::Quotes
    } else if text::occurs_at(w, 0, "end"@) {
        TagKind::Ends
    } else {
        TagKind::Plain
    }
}

/// The tag goes one level deeper.
pub open spec fn goes_deeper(tag: TagKind) -> bool {
    tag == TagKind::Scopes || tag == TagKind::Tables || tag == TagKind::Opens || tag
        == TagKind::Continues || tag == TagKind::Comments || tag == TagKind::Quotes
}

/// The tag gives a value to the name that follows.
pub open spec fn binds(tag: TagKind) -> bool {
    tag == TagKind::Assigns || tag == TagKind::Scopes || tag == TagKind::Tables
}

/// The tag opens a block.
pub open spec fn opens_block(tag: TagKind) -> bool {
    goes_deeper(tag) && tag != TagKind::Continues
}

/// The block that a tag opens in a comment.
pub open spec fn inner_of(w: Seq<char>) -> Inner {
    if w == "if"@ {
        Inner::If
    } else if w == "unless"@ {
        Inner::Unless
    } else if w == "case"@ {
        Inner::Case
    } else if w == "for"@ {
        Inner::For
    } else if w == "tablerow"@ {
        Inner::Tablerow
    } else if w == "capture"@ {
        Inner::Capture
    } else if w == "ifchanged"@ {
        Inner::Ifchanged
    } else {
        Inner::Nothing
    }
}

/// The tag ends the block that is open in a comment.
pub open spec fn ends_inner(inner: Inner, w: Seq<char>) -> bool {
    match inner {
        Inner::Nothing => false,
        Inner::If => w == "endif"@,
        Inner::Unless => w == "endunless"@,
        Inner::Case => w == "endcase"@,
        Inner::For => w == "endfor"@,
        Inner::Tablerow => w == "endtablerow"@,
        Inner::Capture => w == "endcapture"@,
        Inner::Ifchanged => w == "endifchanged"@,
    }
}

/// The block that is open in a comment after a tag other than the end of it; nothing where that is
/// not told. A block in a comment must end before another one begins, and before the comment ends.
pub open spec fn inner_after(inner: Inner, w: Seq<char>) -> Option<Inner> {
    if w == "comment"@ || w == "raw"@ || w == "endcomment"@ || (inner != Inner::Nothing && inner_of(
        w,
    ) != Inner::Nothing) {
        None
    } else if ends_inner(inner, w) {
        Some(Inner::Nothing)
    } else if inner == Inner::Nothing {
        Some(inner_of(w))
    } else {
        Some(inner)
    }
}

/// The tag may give a value to a name that lasts, or may stop the rendering.
pub open spec fn settles(w: Seq<char>) -> bool {
    match tag_kind(w) {
        TagKind::Plain => w != "else"@ && w != "when"@ && w != "cycle"@,
        TagKind::Assigns => true,
        TagKind::Scopes => w != "for"@,
        _ => false,
    }
}

/// A token that is a value.
pub open spec fn is_value(token: Token) -> bool {
    token == Token::Number || token == Token::Text || token == Token::Word
}

impl Reading {
    /// Nothing has been read.
    pub open spec fn start(calm: bool) -> Reading {
        Reading {
            place: Place::Text,
            in_tag: false,
            tag: TagKind::Plain,
            before: Before::Start,
            known: Known::Nothing,
            filter: FilterKind::Free,
            named: false,
            region: Region::Open,
            inner: Inner::Nothing,
            depth: 0,
            nesting: 0,
            tokens: 0,
            plain_line: true,
            bare_line: true,
            calm,
            breakable: false,
            settled: false,
            doomed: false,
        }
    }

    /// A tag or an output begins, which trims white space before it or not.
    pub open spec fn opened(self, tag: bool, trims: bool) -> Reading {
        Reading {
            place: if tag {
                Place::TagName
            } else {
                Place::Value
            },
            in_tag: tag,
            tag: TagKind::Plain,
            before: Before::Start,
            known: Known::Nothing,
            filter: FilterKind::Free,
            named: false,
            tokens: 0,
            breakable: self.region == Region::Open && (self.plain_line || self.bare_line) && !trims,
            bare_line: false,
            ..self
        }
    }

    /// A character of the text between tags.
    pub open spec fn passed(self, c: char) -> Reading {
        Reading {
            plain_line: c == '\n' || (self.plain_line && c <= '\x7f'),
            bare_line: c == '\n' || self.bare_line,
            ..self
        }
    }

    /// Part of a tag or of an output, which is plain or not.
    pub open spec fn inside(self, plain: bool) -> Reading {
        Reading { plain_line: self.plain_line && plain, ..self }
    }

    /// What comes next is the given place.
    pub open spec fn at(self, place: Place) -> Step {
        Step::Next(Reading { place, ..self })
    }

    /// A token that cannot stand where it is. In a tag it may begin something else.
    pub open spec fn refused(self) -> Step {
        if self.in_tag {
            Step::Unsure
        } else {
            Step::Malformed
        }
    }

    /// The verdict on a template whose tag or output is not well-formed.
    pub open spec fn broken(self) -> Verdict {
        if self.breakable {
            Verdict::Fails
        } else {
            Verdict::Unsure
        }
    }

    /// Another filter follows; what is known of its input is what is known of this one's result.
    pub open spec fn next_filter(self) -> Step {
        Step::Next(
            Reading { place: Place::Filter, known: result_of(self.filter, self.known), ..self },
        )
    }

    /// The value that an output begins with.
    pub open spec fn after_value(self, token: Token, w: Seq<char>) -> Step {
        if is_value(token) {
            Step::Next(
                Reading {
                    place: Place::AfterValue,
                    known: known_of(token, w, self.calm),
                    doomed: self.doomed || (token == Token::Word && self.nesting == 0 && self.region
                        == Region::Open && !self.settled && is_unknown(w)),
                    ..self
                },
            )
        } else {
            self.refused()
        }
    }

    /// The name of a filter.
    pub open spec fn after_filter_name(self, token: Token, w: Seq<char>) -> Step {
        if token != Token::Word || !is_simple(w) {
            self.refused()
        } else if takes_input(filter_kind(w), self.known) {
            Step::Next(Reading { place: Place::AfterFilter, filter: filter_kind(w), ..self })
        } else {
            Step::Unsure
        }
    }

    /// What follows the name of a filter.
    pub open spec fn after_filter(self, token: Token) -> Step {
        match token {
            Token::Pipe => self.next_filter(),
            Token::Colon => self.at(Place::Argument),
            Token::Close => self.at(Place::Text),
            _ => self.refused(),
        }
    }

    /// The argument of a filter.
    pub open spec fn after_argument_value(self, token: Token, w: Seq<char>) -> Step {
        if !is_value(token) {
            self.refused()
        } else if takes_argument(self.filter, token, w, self.known, self.calm) {
            Step::Next(
                Reading {
                    place: Place::AfterArgument,
                    named: token == Token::Word && is_simple(w) && self.filter == FilterKind::Free,
                    ..self
                },
            )
        } else {
            Step::Unsure
        }
    }

    /// What follows the argument of a filter.
    pub open spec fn after_argument(self, token: Token) -> Step {
        match token {
            Token::Pipe => self.next_filter(),
            Token::Comma => self.at(Place::Argument),
            Token::Close => self.at(Place::Text),
            Token::Colon => if self.named {
                self.at(Place::NamedValue)
            } else {
                Step::Unsure
            },
            _ => self.refused(),
        }
    }

    /// The name of a tag. In quoted text and in a comment it counts only where it ends them.
    pub open spec fn after_tag_name(self, token: Token, w: Seq<char>) -> Step {
        let tag = tag_kind(w);
        if token != Token::Word {
            Step::Malformed
        } else if !is_simple(w) || (goes_deeper(tag) && self.depth >= MAX_DEPTH) {
            Step::Unsure
        } else if self.region == Region::Comment && !(w == "endcomment"@ && self.inner
            == Inner::Nothing) {
            match inner_after(self.inner, w) {
                Some(inner) => Step::Next(Reading { place: Place::TagBody, tag, inner, ..self }),
                None => Step::Unsure,
            }
        } else if self.region == Region::Raw && w != "endraw"@ {
            Step::Next(Reading { place: Place::TagBody, tag: TagKind::Plain, ..self })
        } else {
            Step::Next(
                Reading {
                    place: Place::TagBody,
                    tag,
                    region: match tag {
                        TagKind::Comments => Region::Comment,
                        TagKind::Quotes => Region::Raw,
                        _ => Region::Open,
                    },
                    depth: if goes_deeper(tag) {
                        (self.depth + 1) as u16
                    } else if tag == TagKind::Ends && self.depth > 0 {
                        (self.depth - 1) as u16
                    } else {
                        self.depth
                    },
                    nesting: if opens_block(tag) && self.nesting < u16::MAX {
                        (self.nesting + 1) as u16
                    } else if tag == TagKind::Ends && self.nesting > 0 {
                        (self.nesting - 1) as u16
                    } else {
                        self.nesting
                    },
                    settled: self.settled || settles(w) || self.nesting == u16::MAX,
                    ..self
                },
            )
        }
    }

    /// A value among the arguments of a tag.
    pub open spec fn after_tag_value(self, token: Token, w: Seq<char>) -> Step {
        let next = Reading { before: Before::Value, known: known_of(token, w, self.calm), ..self };
        match self.before {
            Before::Columns => Step::Unsure,
            Before::ColumnsColon => if token == Token::Number && is_nonzero(w) {
                Step::Next(next)
            } else {
                Step::Unsure
            },
            Before::Start => if binds(self.tag) && (w == "attempt"@ || w == "issue"@) {
                Step::Unsure
            } else if self.tag == TagKind::Tables && w == "cols"@ {
                Step::Unsure
            } else {
                Step::Next(next)
            },
            _ => if self.tag == TagKind::Tables && w == "cols"@ {
                Step::Next(Reading { before: Before::Columns, ..next })
            } else {
                Step::Next(next)
            },
        }
    }

    /// What follows among the arguments of a tag.
    pub open spec fn after_tag_token(self, token: Token, w: Seq<char>) -> Step {
        let waits = self.before == Before::Columns || self.before == Before::ColumnsColon;
        match token {
            Token::Close => if waits || self.before == Before::Colon {
                Step::Unsure
            } else {
                self.at(Place::Text)
            },
            Token::Pipe => if self.before == Before::Value {
                self.at(Place::Filter)
            } else {
                Step::Unsure
            },
            Token::Colon => if self.before == Before::ColumnsColon {
                Step::Unsure
            } else if self.before == Before::Columns {
                Step::Next(Reading { before: Before::ColumnsColon, ..self })
            } else {
                Step::Next(Reading { before: Before::Colon, ..self })
            },
            Token::Comma | Token::Sign | Token::Range => if waits {
                Step::Unsure
            } else {
                Step::Next(Reading { before: Before::Sign, ..self })
            },
            _ => self.after_tag_value(token, w),
        }
    }

    /// What comes of a token that can be told apart.
    pub open spec fn after_token(self, token: Token, w: Seq<char>) -> Step {
        match self.place {
            Place::Text => Step::Unsure,
            Place::Value => self.after_value(token, w),
            Place::AfterValue => match token {
                Token::Pipe => self.at(Place::Filter),
                Token::Close => self.at(Place::Text),
                _ => self.refused(),
            },
            Place::Filter => self.after_filter_name(token, w),
            Place::AfterFilter => self.after_filter(token),
            Place::Argument => self.after_argument_value(token, w),
            Place::AfterArgument => self.after_argument(token),
            Place::NamedValue => if is_value(token) {
                self.at(Place::AfterNamedValue)
            } else {
                self.refused()
            },
            Place::AfterNamedValue => match token {
                Token::Pipe => self.next_filter(),
                Token::Comma => self.at(Place::Argument),
                Token::Close => self.at(Place::Text),
                _ => self.refused(),
            },
            Place::TagName => self.after_tag_name(token, w),
            Place::TagBody => if self.tag == TagKind::Ends && token != Token::Close {
                Step::Unsure
            } else {
                self.after_tag_token(token, w)
            },
        }
    }

    /// What comes of one more token. Where only a value can stand, a constant with more behind it is
    /// not well-formed.
    pub open spec fn after(self, token: Token, w: Seq<char>) -> Step {
        if self.tokens >= MAX_TOKENS {
            Step::Unsure
        } else {
            match token {
                Token::Bad => Step::Malformed,
                Token::Odd => Step::Unsure,
                Token::Split => if self.place == Place::Value || self.place == Place::NamedValue {
                    self.refused()
                } else {
                    Step::Unsure
                },
                _ => (Reading { tokens: (self.tokens + 1) as u16, ..self }).after_token(token, w),
            }
        }
    }
}

/// A tag or an output begins here.
pub open spec fn opens_at(s: Seq<char>, i: int) -> bool {
    0 <= i && i + 1 < s.len() && s[i] == '{' && (s[i + 1] == '{' || s[i + 1] == '%')
}

/// A tag or an output that begins here is one that trims.
pub open spec fn trims_at(s: Seq<char>, i: int) -> bool {
    i + 2 < s.len() && s[i + 2] == '-'
}

/// A tag or an output that begins here trims white space before it.
pub open spec fn eats_at(s: Seq<char>, i: int) -> bool {
    trims_at(s, i) && i > 0 && is_space(s[i - 1])
}

/// No tag, or no output, ends from a position on.
pub open spec fn never_closes(s: Seq<char>, i: int, tag: bool) -> bool {
    forall|k: int| i <= k ==> !closes_at(s, k, tag)
}

/// The characters of a part are ASCII, and none is a line break.
pub open spec fn is_plain(s: Seq<char>, from: int, to: int) -> bool {
    forall|k: int| from <= k < to ==> (#[trigger] s[k]) <= '\x7f' && s[k] != '\n'
}

/// The words of a token; none where it has no end behind its beginning.
pub open spec fn words_of(s: Seq<char>, at: int, end: int) -> Seq<char> {
    if 0 <= at < end <= s.len() {
        s.subrange(at, end)
    } else {
        Seq::empty()
    }
}

/// The verdict on the rest of a template, given what has been read before it. A tag or an output that
/// is not well-formed, or that never ends, is an error without harm where it begins in a line that is
/// plain so far, or in which no other one stands before it.
pub open spec fn verdict_from(s: Seq<char>, i: int, reading: Reading) -> Verdict
    decreases s.len() - i,
{
    if i < 0 || i >= s.len() {
        if reading.place != Place::Text {
            reading.broken()
        } else if reading.doomed {
            Verdict::Fails
        } else {
            Verdict::Harmless
        }
    } else if reading.place != Place::Text {
        let at = skip_space(s, i);
        let (token, end) = token_at(s, at, reading.in_tag);
        match reading.after(token, words_of(s, at, end)) {
            Step::Next(next) => if i <= at < end <= s.len() {
                verdict_from(s, end, next.inside(is_plain(s, i, end)))
            } else {
                Verdict::Unsure
            },
            Step::Malformed => reading.broken(),
            Step::Unsure => Verdict::Unsure,
        }
    } else if opens_at(s, i) {
        let tag = s[i + 1] == '%';
        let opened = reading.opened(tag, eats_at(s, i));
        if opened.breakable && never_closes(s, i + 2, tag) {
            Verdict::Fails
        } else {
            let inner = if trims_at(s, i) {
                i + 3
            } else {
                i + 2
            };
            verdict_from(s, inner, opened.inside(is_plain(s, i, inner)))
        }
    } else {
        verdict_from(s, i + 1, reading.passed(s[i]))
    }
}

/// The verdict on a template. It is rendered for an issue of which no text is a large number, where
/// `calm` says so.
pub open spec fn verdict(template: Seq<char>, calm: bool) -> Verdict {
    verdict_from(template, 0, Reading::start(calm))
}

/// A template that can be rendered without harm: its tags and outputs are of a simple form, its
/// numbers fit, and nothing in it asks for what may not be defined; or it is known to fail.
///
/// Left out are, among others: numbers of more than 18 digits; `tablerow` with a number of columns
/// that is no literal other than 0; `cycle` with nothing after its colon; division of what is not
/// known to be small by what is no literal, or is -1; `plus`, `minus`, `times` and `abs` on what is
/// not known to be small; `slice` with arguments that are no small literals; `sort` on what is not
/// known to be texts; `date` with a format that is no literal or sets a width; ranges whose ends are
/// no short literals; blocks in comments that are nested or not ended; blocks nested deeper than 64;
/// and what is not well-formed behind a tag or an output in a line that has other than ASCII
/// characters before it, or behind one that began in a line before.
pub open spec fn is_harmless(template: Seq<char>, calm: bool) -> bool {
    verdict(template, calm) != Verdict::Unsure
}

/// A template that fails for every issue, without harm: a tag or an output in it is not well-formed,
/// or it prints what is neither the attempt nor the issue or one of its fields.
pub open spec fn is_failing(template: Seq<char>) -> bool {
    verdict(template, true) == Verdict::Fails || verdict(template, false) == Verdict::Fails
}

/// A text that reads like a whole number.
pub open spec fn looks_whole(s: Seq<char>) -> bool {
    s.len() > 0 && (is_digit(s[0]) || s[0] == '-' || s[0] == '+') && forall|k: int|
        1 <= k < s.len() ==> is_digit(#[trigger] s[k])
}

/// A text that is no large number, and not so long that its length is one.
pub open spec fn is_calm_text(s: Seq<char>) -> bool {
    s.len() <= MAX_LENGTH && (s.len() <= MAX_OPERAND || !looks_whole(s))
}

/// Tells whether a text is no large number, and not so long that its length is one.
pub fn calm_text(s: &str) -> (r: bool)
    ensures
        r == is_calm_text(s@),
{
    let chars = text::to_chars(s);
    let n: usize = chars.len();
    if n > MAX_LENGTH {
        return false;
    }
    if n <= MAX_OPERAND || !(digit(chars[0]) || chars[0] == '-' || chars[0] == '+') {
        return true;
    }
    let mut i: usize = 1;
    while i < n
        invariant
            chars@ == s@,
            n == chars@.len(),
            1 <= i <= n,
            n > MAX_OPERAND,
            n <= MAX_LENGTH,
            forall|k: int| 1 <= k < i ==> is_digit(#[trigger] s@[k]),
        decreases n - i,
    {
        if !digit(chars[i]) {
            return true;
        }
        i = i + 1;
    }
    false
}

fn space(c: char) -> (r: bool)
    ensures
        r == is_space(c),
{
    c == ' ' || c == '\n' || c == '\r'
}

fn digit(c: char) -> (r: bool)
    ensures
        r == is_digit(c),
{
    '0' <= c && c <= '9'
}

fn name_start(c: char) -> (r: bool)
    ensures
        r == is_name_start(c),
{
    ('a' <= c && c <= 'z') || ('A' <= c && c <= 'Z') || c == '_'
}

fn quote(c: char) -> (r: bool)
    ensures
        r == is_quote(c),
{
    c == '\'' || c == '"'
}

fn closes(chars: &Vec<char>, i: usize, tag: bool) -> (r: bool)
    ensures
        r == closes_at(chars@, i as int, tag),
{
    let first: char = if tag {
        '%'
    } else {
        '}'
    };
    i < chars.len() && chars.len() - i > 1 && chars[i] == first && chars[i + 1] == '}'
}

fn find_token(chars: &Vec<char>, from: usize) -> (r: usize)
    requires
        from <= chars@.len(),
    ensures
        r == skip_space(chars@, from as int),
        from <= r <= chars@.len(),
{
    let mut i: usize = from;
    while i < chars.len() && space(chars[i])
        invariant
            from <= i <= chars@.len(),
            skip_space(chars@, from as int) == skip_space(chars@, i as int),
        ensures
            i < chars@.len() ==> !is_space(chars@[i as int]),
        decreases chars@.len() - i,
    {
        i = i + 1;
    }
    i
}

fn find_digits_end(chars: &Vec<char>, from: usize) -> (r: usize)
    requires
        from <= chars@.len(),
    ensures
        r == digits_end(chars@, from as int),
        from <= r <= chars@.len(),
{
    let mut i: usize = from;
    while i < chars.len() && digit(chars[i])
        invariant
            from <= i <= chars@.len(),
            digits_end(chars@, from as int) == digits_end(chars@, i as int),
        ensures
            i < chars@.len() ==> !is_digit(chars@[i as int]),
        decreases chars@.len() - i,
    {
        i = i + 1;
    }
    i
}

fn in_name(chars: &Vec<char>, i: usize) -> (r: bool)
    requires
        i < chars@.len(),
    ensures
        r == (is_name_start(chars@[i as int]) || is_digit(chars@[i as int]) || hyphen_at(
            chars@,
            i as int,
        )),
{
    let c: char = chars[i];
    if c == '-' && chars.len() - i > 1 {
        return !closes(chars, i + 1, true) && !closes(chars, i + 1, false);
    }
    name_start(c) || digit(c) || c == '-'
}

fn find_name_end(chars: &Vec<char>, from: usize) -> (r: usize)
    requires
        from <= chars@.len(),
    ensures
        r == name_end(chars@, from as int),
        from <= r <= chars@.len(),
{
    let mut i: usize = from;
    while i < chars.len() && in_name(chars, i)
        invariant
            from <= i <= chars@.len(),
            name_end(chars@, from as int) == name_end(chars@, i as int),
        ensures
            i < chars@.len() ==> !(is_name_start(chars@[i as int]) || is_digit(chars@[i as int])
                || hyphen_at(chars@, i as int)),
        decreases chars@.len() - i,
    {
        i = i + 1;
    }
    i
}

/// A position as the contracts have it.
spec fn at_position(end: Option<usize>) -> Option<int> {
    match end {
        Some(e) => Some(e as int),
        None => None,
    }
}

fn find_quote_end(chars: &Vec<char>, from: usize, quote: char) -> (r: Option<usize>)
    requires
        from <= chars@.len(),
    ensures
        at_position(r) == quote_end(chars@, from as int, quote),
        r matches Some(e) ==> from < e <= chars@.len(),
{
    let mut i: usize = from;
    while i < chars.len()
        invariant
            from <= i <= chars@.len(),
            quote_end(chars@, from as int, quote) == quote_end(chars@, i as int, quote),
        decreases chars@.len() - i,
    {
        if chars[i] == quote {
            return Some(i + 1);
        }
        i = i + 1;
    }
    None
}

fn find_names_end(chars: &Vec<char>, from: usize) -> (r: usize)
    requires
        from <= chars@.len(),
    ensures
        r == names_end(chars@, from as int),
        from <= r <= chars@.len(),
{
    let mut i: usize = from;
    while i < chars.len() && chars.len() - i > 1 && chars[i] == '.' && name_start(chars[i + 1])
        invariant
            from <= i <= chars@.len(),
            names_end(chars@, from as int) == names_end(chars@, i as int),
        ensures
            !(i + 1 < chars@.len() && chars@[i as int] == '.' && is_name_start(chars@[i + 1])),
        decreases chars@.len() - i,
    {
        i = find_name_end(chars, i + 1);
    }
    i
}

fn find_content_end(chars: &Vec<char>, from: usize) -> (r: Option<usize>)
    requires
        from <= chars@.len(),
    ensures
        at_position(r) == content_end(chars@, from as int),
        r matches Some(e) ==> from <= e <= chars@.len(),
{
    if from >= chars.len() {
        return None;
    }
    let c: char = chars[from];
    if digit(c) {
        let e: usize = find_digits_end(chars, from);
        if e - from <= MAX_DIGITS {
            Some(e)
        } else {
            None
        }
    } else if quote(c) {
        find_quote_end(chars, from + 1, c)
    } else if name_start(c) {
        let name: usize = find_name_end(chars, from);
        let e: usize = find_names_end(chars, name);
        if like_constant(text::from_chars(chars, from, e).as_str()) {
            None
        } else {
            Some(e)
        }
    } else {
        None
    }
}

fn find_index_end(chars: &Vec<char>, from: usize) -> (r: Option<usize>)
    requires
        from <= chars@.len(),
    ensures
        at_position(r) == index_end(chars@, from as int),
        r matches Some(e) ==> from < e <= chars@.len(),
{
    let first: usize = find_token(chars, from);
    match find_content_end(chars, first) {
        Some(e) => {
            let close: usize = find_token(chars, e);
            if close < chars.len() && chars[close] == ']' {
                Some(close + 1)
            } else {
                None
            }
        },
        None => None,
    }
}

fn find_path_end(chars: &Vec<char>, from: usize) -> (r: Option<usize>)
    requires
        from <= chars@.len(),
    ensures
        at_position(r) == path_end(chars@, from as int),
        r matches Some(e) ==> from <= e <= chars@.len(),
{
    let mut i: usize = from;
    while i < chars.len()
        invariant
            from <= i <= chars@.len(),
            path_end(chars@, from as int) == path_end(chars@, i as int),
        decreases chars@.len() - i,
    {
        if chars[i] == '.' && chars.len() - i > 1 && name_start(chars[i + 1]) {
            i = find_name_end(chars, i + 1);
        } else if chars[i] == '[' {
            match find_index_end(chars, i + 1) {
                Some(e) => {
                    i = e;
                },
                None => {
                    return None;
                },
            }
        } else {
            return Some(i);
        }
    }
    Some(i)
}

fn find_number_end(chars: &Vec<char>, from: usize) -> (r: Option<usize>)
    requires
        from < chars@.len(),
    ensures
        at_position(r) == number_end(chars@, from as int),
        r matches Some(e) ==> from <= e <= chars@.len(),
{
    let signed: bool = chars[from] == '-' || chars[from] == '+';
    let start: usize = if signed && from < chars.len() {
        from + 1
    } else {
        from
    };
    let whole: usize = find_digits_end(chars, start);
    if whole - start > MAX_DIGITS {
        return None;
    }
    if whole < chars.len() && chars.len() - whole > 1 && chars[whole] == '.' && digit(
        chars[whole + 1],
    ) {
        let end: usize = find_digits_end(chars, whole + 1);
        if end - whole > MAX_DIGITS {
            None
        } else {
            Some(end)
        }
    } else {
        Some(whole)
    }
}

fn find_range_end(chars: &Vec<char>, from: usize) -> (r: Option<usize>)
    requires
        from < chars@.len(),
    ensures
        at_position(r) == range_end(chars@, from as int),
        r matches Some(e) ==> from <= e <= chars@.len(),
{
    let n: usize = chars.len();
    let first: usize = find_token(chars, from + 1);
    let first_end: usize = find_digits_end(chars, first);
    let dots: usize = find_token(chars, first_end);
    if first_end == first || first_end - first > MAX_RANGE_DIGITS || n - dots < 2 || chars[dots]
        != '.' || chars[dots + 1] != '.' {
        return None;
    }
    let last: usize = find_token(chars, dots + 2);
    let last_end: usize = find_digits_end(chars, last);
    let close: usize = find_token(chars, last_end);
    if last_end == last || last_end - last > MAX_RANGE_DIGITS || close >= n || chars[close] != ')' {
        return None;
    }
    Some(close + 1)
}

fn starts_with(w: &str, prefix: &str) -> (r: bool)
    ensures
        r == text::occurs_at(w@, 0, prefix@),
{
    let chars = text::to_chars(w);
    let start = text::to_chars(prefix);
    if start.len() > chars.len() {
        return false;
    }
    let head = text::from_chars(&chars, 0, start.len());
    text::same(head.as_str(), prefix)
}

fn constant(w: &str) -> (r: bool)
    ensures
        r == is_constant(w@),
{
    text::same(w, "nil") || text::same(w, "null") || text::same(w, "empty") || text::same(w, "blank")
        || text::same(w, "true") || text::same(w, "false")
}

fn like_constant(w: &str) -> (r: bool)
    ensures
        r == starts_like_constant(w@),
{
    starts_with(w, "nil") || starts_with(w, "null") || starts_with(w, "empty") || starts_with(
        w,
        "blank",
    ) || starts_with(w, "true") || starts_with(w, "false")
}

fn can_end(chars: &Vec<char>, i: usize, tag: bool) -> (r: bool)
    ensures
        r == ends_at(chars@, i as int, tag),
{
    if i >= chars.len() {
        return false;
    }
    let c: char = chars[i];
    space(c) || c == '|' || c == ':' || c == ',' || c == '=' || c == '<' || c == '>' || c == '!'
        || closes(chars, i, tag) || (c == '-' && closes(chars, i + 1, tag))
}

fn ended_token(chars: &Vec<char>, token: Token, e: usize, tag: bool) -> (r: (Token, usize))
    requires
        e <= chars@.len(),
    ensures
        r.0 == ended(chars@, token, e as int, tag).0,
        r.1 == ended(chars@, token, e as int, tag).1,
{
    if can_end(chars, e, tag) {
        return (token, e);
    }
    if e >= chars.len() {
        return (Token::Bad, e);
    }
    let c: char = chars[e];
    let dotted: bool = chars.len() - e > 1 && c == '.' && chars[e + 1] == '-';
    let dead: bool = !name_start(c) && !digit(c) && !quote(c) && c != '-' && c != '+' && c != '(';
    if dotted || (tag && !dead) {
        (Token::Odd, e)
    } else {
        (Token::Bad, e)
    }
}

fn find_sign(chars: &Vec<char>, i: usize) -> (r: (Token, usize))
    requires
        i < chars@.len(),
    ensures
        r.0 == sign_at(chars@, i as int).0,
        r.1 == sign_at(chars@, i as int).1,
{
    let c: char = chars[i];
    let more = chars.len() - i > 1;
    let second = more && chars[i + 1] == '=';
    if c == '|' {
        (Token::Pipe, i + 1)
    } else if c == ':' {
        (Token::Colon, i + 1)
    } else if c == ',' {
        (Token::Comma, i + 1)
    } else if c == '<' && more && chars[i + 1] == '>' {
        (Token::Sign, i + 2)
    } else if c == '!' {
        if second {
            (Token::Sign, i + 2)
        } else {
            (Token::Bad, i)
        }
    } else if c == '=' || c == '<' || c == '>' {
        if second {
            (Token::Sign, i + 2)
        } else {
            (Token::Sign, i + 1)
        }
    } else {
        (Token::Bad, i)
    }
}

fn find_word(chars: &Vec<char>, i: usize, tag: bool) -> (r: (Token, usize))
    requires
        i < chars@.len(),
    ensures
        r.0 == word_at(chars@, i as int, tag).0,
        r.1 == word_at(chars@, i as int, tag).1,
{
    let name: usize = find_name_end(chars, i);
    match find_path_end(chars, name) {
        Some(e) => {
            let w = text::from_chars(chars, i, e);
            if e - i > MAX_NAME {
                (Token::Odd, e)
            } else if !constant(w.as_str()) && like_constant(w.as_str()) {
                (Token::Split, e)
            } else {
                ended_token(chars, Token::Word, e, tag)
            }
        },
        None => (Token::Odd, 0),
    }
}

fn read_token(chars: &Vec<char>, i: usize, tag: bool) -> (r: (Token, usize))
    requires
        i <= chars@.len(),
    ensures
        r.0 == token_at(chars@, i as int, tag).0,
        r.1 == token_at(chars@, i as int, tag).1,
{
    if i >= chars.len() {
        return (Token::Bad, i);
    }
    let c: char = chars[i];
    if closes(chars, i, tag) {
        (Token::Close, i + 2)
    } else if c == '-' && closes(chars, i + 1, tag) {
        (Token::Close, i + 3)
    } else if quote(c) {
        match find_quote_end(chars, i + 1, c) {
            Some(e) => ended_token(chars, Token::Text, e, tag),
            None => (Token::Bad, i),
        }
    } else if digit(c) || ((c == '-' || c == '+') && chars.len() - i > 1 && digit(chars[i + 1])) {
        match find_number_end(chars, i) {
            Some(e) => ended_token(chars, Token::Number, e, tag),
            None => (Token::Odd, i),
        }
    } else if name_start(c) {
        find_word(chars, i, tag)
    } else if c == '(' && tag {
        match find_range_end(chars, i) {
            Some(e) => ended_token(chars, Token::Range, e, tag),
            None => (Token::Odd, i),
        }
    } else if c == '-' {
        (Token::Odd, i)
    } else {
        find_sign(chars, i)
    }
}


fn simple(w: &str) -> (r: bool)
    ensures
        r == is_simple(w@),
{
    let chars = text::to_chars(w);
    let mut i: usize = 0;
    while i < chars.len()
        invariant
            chars@ == w@,
            i <= chars@.len(),
            forall|k: int| 0 <= k < i ==> (#[trigger] w@[k]) != '.' && w@[k] != '[',
        decreases chars@.len() - i,
    {
        if chars[i] == '.' || chars[i] == '[' {
            return false;
        }
        i = i + 1;
    }
    true
}

fn minus_one(w: &str) -> (r: bool)
    ensures
        r == is_minus_one(w@),
{
    let chars = text::to_chars(w);
    let n: usize = chars.len();
    if n < 2 || chars[0] != '-' || chars[n - 1] != '1' {
        return false;
    }
    let mut i: usize = 1;
    while i < n - 1
        invariant
            chars@ == w@,
            n == chars@.len(),
            1 <= i <= n - 1,
            forall|k: int| 1 <= k < i ==> (#[trigger] w@[k]) == '0',
        decreases n - i,
    {
        if chars[i] != '0' {
            return false;
        }
        i = i + 1;
    }
    true
}

fn nonzero(w: &str) -> (r: bool)
    ensures
        r == is_nonzero(w@),
{
    let chars = text::to_chars(w);
    let mut i: usize = 0;
    while i < chars.len()
        invariant
            chars@ == w@,
            i <= chars@.len(),
            forall|k: int| 0 <= k < i ==> !('1' <= (#[trigger] w@[k]) && w@[k] <= '9'),
        decreases chars@.len() - i,
    {
        if '1' <= chars[i] && chars[i] <= '9' {
            return true;
        }
        i = i + 1;
    }
    false
}

fn no_width(w: &str) -> (r: bool)
    ensures
        r == has_no_width(w@),
{
    let chars = text::to_chars(w);
    let mut i: usize = 0;
    while i < chars.len()
        invariant
            chars@ == w@,
            i <= chars@.len(),
            forall|k: int| 0 <= k < i ==> (#[trigger] w@[k]) <= '\x7f' && !is_digit(w@[k]),
        decreases chars@.len() - i,
    {
        if chars[i] > '\x7f' || digit(chars[i]) {
            return false;
        }
        i = i + 1;
    }
    true
}

fn short_number(token: Token, w: &str) -> (r: bool)
    ensures
        r == (token == Token::Number && w@.len() <= MAX_OPERAND),
{
    token == Token::Number && text::to_chars(w).len() <= MAX_OPERAND
}

fn find_part_end(chars: &Vec<char>, from: usize) -> (r: usize)
    requires
        from <= chars@.len(),
    ensures
        r == part_end(chars@, from as int),
        from <= r <= chars@.len(),
{
    let mut i: usize = from;
    while i < chars.len() && chars[i] != '.' && chars[i] != '['
        invariant
            from <= i <= chars@.len(),
            part_end(chars@, from as int) == part_end(chars@, i as int),
        ensures
            i < chars@.len() ==> chars@[i as int] == '.' || chars@[i as int] == '[',
        decreases chars@.len() - i,
    {
        i = i + 1;
    }
    i
}

fn root(w: &str) -> (r: String)
    ensures
        r@ == root_of(w@),
{
    let chars = text::to_chars(w);
    let end: usize = find_part_end(&chars, 0);
    text::from_chars(&chars, 0, end)
}

fn field(name: &str) -> (r: bool)
    ensures
        r == is_field(name@),
{
    text::same(name, "id") || text::same(name, "identifier") || text::same(name, "title")
        || text::same(name, "description") || text::same(name, "priority") || text::same(
        name,
        "state",
    ) || text::same(name, "branch_name") || text::same(name, "url") || text::same(name, "labels")
        || text::same(name, "blocked_by") || text::same(name, "created_at") || text::same(
        name,
        "updated_at",
    ) || text::same(name, "size")
}

fn unknown(w: &str) -> (r: bool)
    ensures
        r == is_unknown(w@),
{
    let name = root(w);
    if constant(w) || text::same(name.as_str(), "attempt") {
        return false;
    }
    if !text::same(name.as_str(), "issue") {
        return true;
    }
    let chars = text::to_chars(w);
    let end: usize = find_part_end(&chars, 0);
    if end >= chars.len() || chars[end] != '.' {
        return false;
    }
    let next: usize = find_part_end(&chars, end + 1);
    !field(text::from_chars(&chars, end + 1, next).as_str())
}

fn value_known(token: Token, w: &str, calm: bool) -> (r: Known)
    ensures
        r == known_of(token, w@, calm),
{
    if short_number(token, w) {
        Known::Small
    } else if token == Token::Word && (text::same(w, "attempt") || text::same(
        w,
        "issue.priority",
    )) {
        Known::Small
    } else if token == Token::Word && text::same(w, "issue.labels") {
        Known::Texts
    } else if token == Token::Word && calm && (text::same(root(w).as_str(), "issue") || text::same(
        root(w).as_str(),
        "attempt",
    )) {
        Known::Small
    } else {
        Known::Nothing
    }
}

fn kind_of_filter(w: &str) -> (r: FilterKind)
    ensures
        r == filter_kind(w@),
{
    if text::same(w, "divided_by") || text::same(w, "modulo") {
        FilterKind::Divides
    } else if text::same(w, "plus") || text::same(w, "minus") {
        FilterKind::Reckons
    } else if text::same(w, "times") {
        FilterKind::Multiplies
    } else if text::same(w, "size") {
        FilterKind::Counts
    } else if text::same(w, "abs") {
        FilterKind::Negates
    } else if text::same(w, "slice") {
        FilterKind::Slices
    } else if text::same(w, "sort") {
        FilterKind::Sorts
    } else if text::same(w, "date") {
        FilterKind::Dates
    } else {
        FilterKind::Free
    }
}

fn accepts_input(filter: FilterKind, known: Known) -> (r: bool)
    ensures
        r == takes_input(filter, known),
{
    match filter {
        FilterKind::Reckons => known != Known::Nothing,
        FilterKind::Multiplies => known == Known::Small || known == Known::Texts,
        FilterKind::Negates => known != Known::Nothing,
        FilterKind::Sorts => known == Known::Texts,
        _ => true,
    }
}

fn known_result(filter: FilterKind, known: Known) -> (r: Known)
    ensures
        r == result_of(filter, known),
{
    if known == Known::Nothing {
        return Known::Nothing;
    }
    match filter {
        FilterKind::Counts => Known::Small,
        FilterKind::Reckons => Known::Sum,
        FilterKind::Divides | FilterKind::Negates => known,
        _ => Known::Nothing,
    }
}

fn accepts_argument(filter: FilterKind, token: Token, w: &str, known: Known, calm: bool) -> (r: bool)
    ensures
        r == takes_argument(filter, token, w@, known, calm),
{
    match filter {
        FilterKind::Free => true,
        FilterKind::Counts => true,
        FilterKind::Divides => known != Known::Nothing || (token == Token::Number && !minus_one(w)),
        FilterKind::Reckons => value_known(token, w, calm) != Known::Nothing,
        FilterKind::Multiplies => short_number(token, w),
        FilterKind::Slices => short_number(token, w),
        FilterKind::Dates => token == Token::Text && no_width(w),
        FilterKind::Negates => false,
        FilterKind::Sorts => false,
    }
}

fn kind_of_tag(w: &str) -> (r: TagKind)
    ensures
        r == tag_kind(w@),
{
    if text::same(w, "assign") {
        TagKind::Assigns
    } else if text::same(w, "for") || text::same(w, "capture") {
        TagKind::Scopes
    } else if text::same(w, "tablerow") {
        TagKind::Tables
    } else if text::same(w, "if") || text::same(w, "unless") || text::same(w, "case") || text::same(
        w,
        "ifchanged",
    ) {
        TagKind::Opens
    } else if text::same(w, "elsif") {
        TagKind::Continues
    } else if text::same(w, "comment") {
        TagKind::Comments
    } else if text::same(w, "raw") {
        TagKind::Quotes
    } else if starts_with(w, "end") {
        TagKind::Ends
    } else {
        TagKind::Plain
    }
}

fn deeper(tag: TagKind) -> (r: bool)
    ensures
        r == goes_deeper(tag),
{
    tag == TagKind::Scopes || tag == TagKind::Tables || tag == TagKind::Opens || tag
        == TagKind::Continues || tag == TagKind::Comments || tag == TagKind::Quotes
}

fn find_inner(w: &str) -> (r: Inner)
    ensures
        r == inner_of(w@),
{
    if text::same(w, "if") {
        Inner::If
    } else if text::same(w, "unless") {
        Inner::Unless
    } else if text::same(w, "case") {
        Inner::Case
    } else if text::same(w, "for") {
        Inner::For
    } else if text::same(w, "tablerow") {
        Inner::Tablerow
    } else if text::same(w, "capture") {
        Inner::Capture
    } else if text::same(w, "ifchanged") {
        Inner::Ifchanged
    } else {
        Inner::Nothing
    }
}

fn ending_inner(inner: Inner, w: &str) -> (r: bool)
    ensures
        r == ends_inner(inner, w@),
{
    match inner {
        Inner::Nothing => false,
        Inner::If => text::same(w, "endif"),
        Inner::Unless => text::same(w, "endunless"),
        Inner::Case => text::same(w, "endcase"),
        Inner::For => text::same(w, "endfor"),
        Inner::Tablerow => text::same(w, "endtablerow"),
        Inner::Capture => text::same(w, "endcapture"),
        Inner::Ifchanged => text::same(w, "endifchanged"),
    }
}

fn next_inner(inner: Inner, w: &str) -> (r: Option<Inner>)
    ensures
        r == inner_after(inner, w@),
{
    let opened = find_inner(w);
    if text::same(w, "comment") || text::same(w, "raw") || text::same(w, "endcomment") || (inner
        != Inner::Nothing && opened != Inner::Nothing) {
        None
    } else if ending_inner(inner, w) {
        Some(Inner::Nothing)
    } else if inner == Inner::Nothing {
        Some(opened)
    } else {
        Some(inner)
    }
}

fn settling(w: &str) -> (r: bool)
    ensures
        r == settles(w@),
{
    match kind_of_tag(w) {
        TagKind::Plain => !text::same(w, "else") && !text::same(w, "when") && !text::same(
            w,
            "cycle",
        ),
        TagKind::Assigns => true,
        TagKind::Scopes => !text::same(w, "for"),
        _ => false,
    }
}

fn value_token(token: Token) -> (r: bool)
    ensures
        r == is_value(token),
{
    token == Token::Number || token == Token::Text || token == Token::Word
}

impl Reading {
    fn new(calm: bool) -> (r: Self)
        ensures
            r == Reading::start(calm),
    {
        Reading {
            place: Place::Text,
            in_tag: false,
            tag: TagKind::Plain,
            before: Before::Start,
            known: Known::Nothing,
            filter: FilterKind::Free,
            named: false,
            region: Region::Open,
            inner: Inner::Nothing,
            depth: 0,
            nesting: 0,
            tokens: 0,
            plain_line: true,
            bare_line: true,
            calm,
            breakable: false,
            settled: false,
            doomed: false,
        }
    }

    fn open(self, tag: bool, trims: bool) -> (r: Self)
        ensures
            r == self.opened(tag, trims),
    {
        Reading {
            place: if tag {
                Place::TagName
            } else {
                Place::Value
            },
            in_tag: tag,
            tag: TagKind::Plain,
            before: Before::Start,
            known: Known::Nothing,
            filter: FilterKind::Free,
            named: false,
            tokens: 0,
            breakable: self.region == Region::Open && (self.plain_line || self.bare_line) && !trims,
            bare_line: false,
            ..self
        }
    }

    fn go(self, place: Place) -> (r: Step)
        ensures
            r == self.at(place),
    {
        Step::Next(Reading { place, ..self })
    }

    fn refuse(self) -> (r: Step)
        ensures
            r == self.refused(),
    {
        if self.in_tag {
            Step::Unsure
        } else {
            Step::Malformed
        }
    }

    fn give_up(self) -> (r: Verdict)
        ensures
            r == self.broken(),
    {
        if self.breakable {
            Verdict::Fails
        } else {
            Verdict::Unsure
        }
    }

    fn go_to_filter(self) -> (r: Step)
        ensures
            r == self.next_filter(),
    {
        let known = known_result(self.filter, self.known);
        Step::Next(Reading { place: Place::Filter, known, ..self })
    }

    fn read_value(self, token: Token, w: &str) -> (r: Step)
        ensures
            r == self.after_value(token, w@),
    {
        if !value_token(token) {
            return self.refuse();
        }
        let known = value_known(token, w, self.calm);
        let doomed = self.doomed || (token == Token::Word && self.nesting == 0 && self.region
            == Region::Open && !self.settled && unknown(w));
        Step::Next(Reading { place: Place::AfterValue, known, doomed, ..self })
    }

    fn read_filter_name(self, token: Token, w: &str) -> (r: Step)
        ensures
            r == self.after_filter_name(token, w@),
    {
        let filter = kind_of_filter(w);
        if token != Token::Word || !simple(w) {
            self.refuse()
        } else if accepts_input(filter, self.known) {
            Step::Next(Reading { place: Place::AfterFilter, filter, ..self })
        } else {
            Step::Unsure
        }
    }

    fn read_after_filter(self, token: Token) -> (r: Step)
        ensures
            r == self.after_filter(token),
    {
        match token {
            Token::Pipe => self.go_to_filter(),
            Token::Colon => self.go(Place::Argument),
            Token::Close => self.go(Place::Text),
            _ => self.refuse(),
        }
    }

    fn read_argument(self, token: Token, w: &str) -> (r: Step)
        ensures
            r == self.after_argument_value(token, w@),
    {
        if !value_token(token) {
            self.refuse()
        } else if accepts_argument(self.filter, token, w, self.known, self.calm) {
            let named = token == Token::Word && simple(w) && self.filter == FilterKind::Free;
            Step::Next(Reading { place: Place::AfterArgument, named, ..self })
        } else {
            Step::Unsure
        }
    }

    fn read_after_argument(self, token: Token) -> (r: Step)
        ensures
            r == self.after_argument(token),
    {
        match token {
            Token::Pipe => self.go_to_filter(),
            Token::Comma => self.go(Place::Argument),
            Token::Close => self.go(Place::Text),
            Token::Colon => if self.named {
                self.go(Place::NamedValue)
            } else {
                Step::Unsure
            },
            _ => self.refuse(),
        }
    }

    fn read_tag_name(self, token: Token, w: &str) -> (r: Step)
        ensures
            r == self.after_tag_name(token, w@),
    {
        if token != Token::Word {
            return Step::Malformed;
        }
        let tag = kind_of_tag(w);
        if !simple(w) || (deeper(tag) && self.depth >= MAX_DEPTH) {
            return Step::Unsure;
        }
        if self.region == Region::Comment && !(text::same(w, "endcomment") && self.inner
            == Inner::Nothing) {
            return match next_inner(self.inner, w) {
                Some(inner) => Step::Next(Reading { place: Place::TagBody, tag, inner, ..self }),
                None => Step::Unsure,
            };
        }
        if self.region == Region::Raw && !text::same(w, "endraw") {
            return Step::Next(Reading { place: Place::TagBody, tag: TagKind::Plain, ..self });
        }
        let region = match tag {
            TagKind::Comments => Region::Comment,
            TagKind::Quotes => Region::Raw,
            _ => Region::Open,
        };
        let depth: u16 = if deeper(tag) {
            self.depth + 1
        } else if tag == TagKind::Ends && self.depth > 0 {
            self.depth - 1
        } else {
            self.depth
        };
        let nesting: u16 = if deeper(tag) && tag != TagKind::Continues && self.nesting < u16::MAX {
            self.nesting + 1
        } else if tag == TagKind::Ends && self.nesting > 0 {
            self.nesting - 1
        } else {
            self.nesting
        };
        let settled = self.settled || settling(w) || self.nesting == u16::MAX;
        Step::Next(
            Reading { place: Place::TagBody, tag, region, depth, nesting, settled, ..self },
        )
    }

    fn read_tag_value(self, token: Token, w: &str) -> (r: Step)
        ensures
            r == self.after_tag_value(token, w@),
    {
        let known = value_known(token, w, self.calm);
        let next = Reading { before: Before::Value, known, ..self };
        let columns = self.tag == TagKind::Tables && text::same(w, "cols");
        match self.before {
            Before::Columns => Step::Unsure,
            Before::ColumnsColon => if token == Token::Number && nonzero(w) {
                Step::Next(next)
            } else {
                Step::Unsure
            },
            Before::Start => {
                let binder = self.tag == TagKind::Assigns || self.tag == TagKind::Scopes || self.tag
                    == TagKind::Tables;
                if binder && (text::same(w, "attempt") || text::same(w, "issue")) {
                    Step::Unsure
                } else if columns {
                    Step::Unsure
                } else {
                    Step::Next(next)
                }
            },
            _ => if columns {
                Step::Next(Reading { before: Before::Columns, ..next })
            } else {
                Step::Next(next)
            },
        }
    }

    fn read_tag_token(self, token: Token, w: &str) -> (r: Step)
        ensures
            r == self.after_tag_token(token, w@),
    {
        let waits = self.before == Before::Columns || self.before == Before::ColumnsColon;
        match token {
            Token::Close => if waits || self.before == Before::Colon {
                Step::Unsure
            } else {
                self.go(Place::Text)
            },
            Token::Pipe => if self.before == Before::Value {
                self.go(Place::Filter)
            } else {
                Step::Unsure
            },
            Token::Colon => if self.before == Before::ColumnsColon {
                Step::Unsure
            } else if self.before == Before::Columns {
                Step::Next(Reading { before: Before::ColumnsColon, ..self })
            } else {
                Step::Next(Reading { before: Before::Colon, ..self })
            },
            Token::Comma | Token::Sign | Token::Range => if waits {
                Step::Unsure
            } else {
                Step::Next(Reading { before: Before::Sign, ..self })
            },
            _ => self.read_tag_value(token, w),
        }
    }

    fn read_known(self, token: Token, w: &str) -> (r: Step)
        ensures
            r == self.after_token(token, w@),
    {
        match self.place {
            Place::Text => Step::Unsure,
            Place::Value => self.read_value(token, w),
            Place::AfterValue => match token {
                Token::Pipe => self.go(Place::Filter),
                Token::Close => self.go(Place::Text),
                _ => self.refuse(),
            },
            Place::Filter => self.read_filter_name(token, w),
            Place::AfterFilter => self.read_after_filter(token),
            Place::Argument => self.read_argument(token, w),
            Place::AfterArgument => self.read_after_argument(token),
            Place::NamedValue => if value_token(token) {
                self.go(Place::AfterNamedValue)
            } else {
                self.refuse()
            },
            Place::AfterNamedValue => match token {
                Token::Pipe => self.go_to_filter(),
                Token::Comma => self.go(Place::Argument),
                Token::Close => self.go(Place::Text),
                _ => self.refuse(),
            },
            Place::TagName => self.read_tag_name(token, w),
            Place::TagBody => if self.tag == TagKind::Ends && token != Token::Close {
                Step::Unsure
            } else {
                self.read_tag_token(token, w)
            },
        }
    }

    fn read(self, token: Token, w: &str) -> (r: Step)
        ensures
            r == self.after(token, w@),
    {
        if self.tokens >= MAX_TOKENS {
            return Step::Unsure;
        }
        match token {
            Token::Bad => Step::Malformed,
            Token::Odd => Step::Unsure,
            Token::Split => if self.place == Place::Value || self.place == Place::NamedValue {
                self.refuse()
            } else {
                Step::Unsure
            },
            _ => (Reading { tokens: self.tokens + 1, ..self }).read_known(token, w),
        }
    }
}

fn has_no_end(chars: &Vec<char>, from: usize, tag: bool) -> (r: bool)
    requires
        from <= chars@.len(),
    ensures
        r == never_closes(chars@, from as int, tag),
{
    let mut i: usize = from;
    while i < chars.len()
        invariant
            from <= i <= chars@.len(),
            forall|k: int| from <= k < i ==> !closes_at(chars@, k, tag),
        decreases chars@.len() - i,
    {
        if closes(chars, i, tag) {
            return false;
        }
        i = i + 1;
    }
    true
}

fn plain(chars: &Vec<char>, from: usize, to: usize) -> (r: bool)
    requires
        from <= to <= chars@.len(),
    ensures
        r == is_plain(chars@, from as int, to as int),
{
    let mut i: usize = from;
    while i < to
        invariant
            from <= i <= to <= chars@.len(),
            forall|k: int| from <= k < i ==> (#[trigger] chars@[k]) <= '\x7f' && chars@[k] != '\n',
        decreases to - i,
    {
        if chars[i] > '\x7f' || chars[i] == '\n' {
            return false;
        }
        i = i + 1;
    }
    true
}

/// Tells what is known of a template. It is rendered for an issue of which no text is a large number,
/// where `calm` says so.
pub fn judge(template: &str, calm: bool) -> (r: Verdict)
    ensures
        r == verdict(template@, calm),
{
    let chars = text::to_chars(template);
    let n: usize = chars.len();
    let mut reading = Reading::new(calm);
    let mut i: usize = 0;
    while i < n
        invariant
            chars@ == template@,
            n == chars@.len(),
            i <= n,
            verdict_from(chars@, i as int, reading) == verdict(template@, calm),
        decreases n - i,
    {
        if reading.place != Place::Text {
            let at: usize = find_token(&chars, i);
            let (token, end) = read_token(&chars, at, reading.in_tag);
            let whole: bool = at < end && end <= n;
            let w = if whole {
                text::from_chars(&chars, at, end)
            } else {
                String::new()
            };
            match reading.read(token, w.as_str()) {
                Step::Next(next) => {
                    if !whole {
                        return Verdict::Unsure;
                    }
                    let line: bool = next.plain_line && plain(&chars, i, end);
                    reading = Reading { plain_line: line, ..next };
                    i = end;
                },
                Step::Malformed => {
                    return reading.give_up();
                },
                Step::Unsure => {
                    return Verdict::Unsure;
                },
            }
        } else if chars[i] == '{' && n - i > 1 && (chars[i + 1] == '{' || chars[i + 1] == '%') {
            let tag: bool = chars[i + 1] == '%';
            let trims: bool = n - i > 2 && chars[i + 2] == '-';
            let eats: bool = trims && i > 0 && space(chars[i - 1]);
            let next = reading.open(tag, eats);
            if next.breakable && has_no_end(&chars, i + 2, tag) {
                return Verdict::Fails;
            }
            let inner: usize = if trims {
                i + 3
            } else {
                i + 2
            };
            let line: bool = next.plain_line && plain(&chars, i, inner);
            reading = Reading { plain_line: line, ..next };
            i = inner;
        } else {
            let c: char = chars[i];
            let line: bool = c == '\n' || (reading.plain_line && c <= '\x7f');
            let bare: bool = c == '\n' || reading.bare_line;
            reading = Reading { plain_line: line, bare_line: bare, ..reading };
            i = i + 1;
        }
    }
    if reading.place != Place::Text {
        reading.give_up()
    } else if reading.doomed {
        Verdict::Fails
    } else {
        Verdict::Harmless
    }
}

proof fn lemma_rest_without_tags(s: Seq<char>, i: int, reading: Reading)
    requires
        0 <= i,
        reading.place == Place::Text,
        !reading.doomed,
        forall|k: int| 0 <= k < s.len() ==> (#[trigger] s[k]) != '{',
    ensures
        verdict_from(s, i, reading) == Verdict::Harmless,
    decreases s.len() - i,
{
    if i < s.len() {
        lemma_rest_without_tags(s, i + 1, reading.passed(s[i]));
    }
}

/// A text without braces is harmless.
pub proof fn lemma_plain_text_is_harmless(s: Seq<char>, calm: bool)
    requires
        forall|k: int| 0 <= k < s.len() ==> (#[trigger] s[k]) != '{',
    ensures
        verdict(s, calm) == Verdict::Harmless,
{
    lemma_rest_without_tags(s, 0, Reading::start(calm));
}

proof fn lemma_tag_keeps_doom(reading: Reading, token: Token, w: Seq<char>)
    requires
        reading.doomed,
    ensures
        reading.after_tag_name(token, w) matches Step::Next(next) ==> next.doomed,
        reading.after_tag_token(token, w) matches Step::Next(next) ==> next.doomed,
{
}

proof fn lemma_output_keeps_doom(reading: Reading, token: Token, w: Seq<char>)
    requires
        reading.doomed,
    ensures
        reading.after_value(token, w) matches Step::Next(next) ==> next.doomed,
        reading.after_filter_name(token, w) matches Step::Next(next) ==> next.doomed,
        reading.after_filter(token) matches Step::Next(next) ==> next.doomed,
        reading.after_argument_value(token, w) matches Step::Next(next) ==> next.doomed,
        reading.after_argument(token) matches Step::Next(next) ==> next.doomed,
        reading.next_filter() matches Step::Next(next) ==> next.doomed,
        reading.refused() is Next ==> false,
{
}

proof fn lemma_step_keeps_doom(reading: Reading, token: Token, w: Seq<char>)
    requires
        reading.doomed,
    ensures
        reading.after(token, w) matches Step::Next(next) ==> next.doomed,
{
    let counted = Reading { tokens: (reading.tokens + 1) as u16, ..reading };
    lemma_tag_keeps_doom(counted, token, w);
    lemma_output_keeps_doom(counted, token, w);
    lemma_output_keeps_doom(reading, token, w);
}

proof fn lemma_doomed_is_not_rendered(s: Seq<char>, i: int, reading: Reading)
    requires
        reading.doomed,
    ensures
        verdict_from(s, i, reading) != Verdict::Harmless,
    decreases s.len() - i,
{
    if i < 0 || i >= s.len() {
    } else if reading.place != Place::Text {
        let at = skip_space(s, i);
        let (token, end) = token_at(s, at, reading.in_tag);
        let w = words_of(s, at, end);
        lemma_step_keeps_doom(reading, token, w);
        match reading.after(token, w) {
            Step::Next(next) => if i <= at < end <= s.len() {
                lemma_doomed_is_not_rendered(s, end, next.inside(is_plain(s, i, end)));
            },
            _ => {},
        }
    } else if opens_at(s, i) {
        let inner = if trims_at(s, i) {
            i + 3
        } else {
            i + 2
        };
        let opened = reading.opened(s[i + 1] == '%', eats_at(s, i));
        lemma_doomed_is_not_rendered(s, inner, opened.inside(is_plain(s, i, inner)));
    } else {
        lemma_doomed_is_not_rendered(s, i + 1, reading.passed(s[i]));
    }
}

proof fn lemma_text_is_passed(s: Seq<char>, i: int, end: int, reading: Reading) -> (r: Reading)
    requires
        0 <= i <= end <= s.len(),
        reading.place == Place::Text,
        forall|k: int| i <= k < end ==> (#[trigger] s[k]) != '{',
    ensures
        verdict_from(s, i, reading) == verdict_from(s, end, r),
        r == (Reading { plain_line: r.plain_line, bare_line: r.bare_line, ..reading }),
        reading.bare_line ==> r.bare_line,
    decreases end - i,
{
    if i < end {
        lemma_text_is_passed(s, i + 1, end, reading.passed(s[i]))
    } else {
        reading
    }
}

proof fn lemma_name_is_read(s: Seq<char>, i: int, end: int)
    requires
        0 <= i <= end < s.len(),
        forall|k: int| i <= k < end ==> is_name_start(#[trigger] s[k]) || is_digit(s[k]),
        s[end] == ' ',
    ensures
        name_end(s, i) == end,
    decreases end - i,
{
    if i < end {
        lemma_name_is_read(s, i + 1, end);
    }
}

proof fn lemma_name_is_one_part(w: Seq<char>, i: int)
    requires
        0 <= i <= w.len(),
        forall|k: int| 0 <= k < w.len() ==> is_name_start(#[trigger] w[k]) || is_digit(w[k]),
    ensures
        part_end(w, i) == w.len(),
    decreases w.len() - i,
{
    if i < w.len() {
        lemma_name_is_one_part(w, i + 1);
    }
}

/// A name made of letters, digits and underscores that nothing has.
pub open spec fn is_unknown_name(name: Seq<char>) -> bool {
    &&& 0 < name.len() <= MAX_NAME
    &&& is_name_start(name[0])
    &&& forall|k: int| 0 <= k < name.len() ==> is_name_start(#[trigger] name[k]) || is_digit(name[k])
    &&& name != "issue"@
    &&& name != "attempt"@
    &&& !starts_like_constant(name)
    &&& !is_constant(name)
}

/// An output that prints a name.
pub open spec fn output_of(name: Seq<char>) -> Seq<char> {
    Seq::empty().push('{').push('{').push(' ') + name + Seq::empty().push(' ').push('}').push('}')
}

proof fn lemma_unknown_name_dooms(reading: Reading, name: Seq<char>) -> (next: Reading)
    requires
        is_unknown_name(name),
        reading.place == Place::Value,
        reading.tokens == 0,
        reading.nesting == 0,
        reading.region == Region::Open,
        !reading.settled,
    ensures
        reading.after(Token::Word, name) == Step::Next(next),
        next.doomed,
{
    lemma_name_is_one_part(name, 0);
    assert(name.subrange(0, name.len() as int) =~= name);
    assert(is_unknown(name));
    let counted = Reading { tokens: 1, ..reading };
    assert(reading.after(Token::Word, name) == counted.after_value(Token::Word, name));
    counted.after_value(Token::Word, name)->Next_0
}

proof fn lemma_name_is_a_token(s: Seq<char>, first: int, end: int, name: Seq<char>)
    requires
        is_unknown_name(name),
        0 <= first,
        end == first + name.len(),
        end + 2 < s.len(),
        s.subrange(first, end) == name,
        s[end] == ' ',
    ensures
        token_at(s, first, false) == (Token::Word, end),
        words_of(s, first, end) == name,
{
    assert forall|k: int| first <= k < end implies is_name_start(#[trigger] s[k]) || is_digit(
        s[k],
    ) by {
        assert(s[k] == name[k - first]);
    }
    assert(s[first] == name[0]);
    lemma_name_is_read(s, first, end);
    assert(path_end(s, end) == Some(end));
    assert(word_at(s, first, false) == ended(s, Token::Word, end, false));
}

/// A template fails that prints, outside of every tag, a name that nothing has, whatever follows on
/// it, as long as it is harmless.
pub proof fn lemma_unknown_variable_fails(
    before: Seq<char>,
    name: Seq<char>,
    rest: Seq<char>,
    calm: bool,
)
    requires
        forall|k: int| 0 <= k < before.len() ==> (#[trigger] before[k]) != '{',
        is_unknown_name(name),
        is_harmless(before + output_of(name) + rest, calm),
    ensures
        is_failing(before + output_of(name) + rest),
{
    let s = before + output_of(name) + rest;
    let b = before.len() as int;
    let first = b + 3;
    let end = first + name.len();
    let start = Reading::start(calm);
    assert forall|k: int| 0 <= k < b implies (#[trigger] s[k]) != '{' by {
        assert(s[k] == before[k]);
    }
    let reading = lemma_text_is_passed(s, 0, b, start);
    assert(s[b] == '{' && s[b + 1] == '{' && s[b + 2] == ' ');
    assert(s.subrange(first, end) =~= name);
    assert(s[first] == name[0]);
    assert(s[end] == ' ' && s[end + 1] == '}' && s[end + 2] == '}');
    assert(closes_at(s, end + 1, false));
    let inner = b + 2;
    let opened = reading.opened(false, false).inside(is_plain(s, b, inner));
    assert(verdict_from(s, b, reading) == verdict_from(s, inner, opened));
    reveal_with_fuel(skip_space, 3);
    assert(skip_space(s, inner) == first);
    lemma_name_is_a_token(s, first, end, name);
    let next = lemma_unknown_name_dooms(opened, name);
    lemma_doomed_is_not_rendered(s, end, next.inside(is_plain(s, inner, end)));
}

/// A template fails in which an output never ends, where text alone stands before it.
pub proof fn lemma_output_without_end_fails(before: Seq<char>, rest: Seq<char>)
    requires
        forall|k: int| 0 <= k < before.len() ==> (#[trigger] before[k]) != '{',
        never_closes(rest, 0, false),
        rest.len() > 0 ==> rest[0] != '-',
    ensures
        is_failing(before + Seq::empty().push('{').push('{') + rest),
{
    let s = before + Seq::empty().push('{').push('{') + rest;
    let b = before.len() as int;
    assert forall|k: int| 0 <= k < b implies (#[trigger] s[k]) != '{' by {
        assert(s[k] == before[k]);
    }
    let reading = lemma_text_is_passed(s, 0, b, Reading::start(true));
    assert(reading.opened(false, false).breakable);
    assert(s[b] == '{' && s[b + 1] == '{');
    assert forall|k: int| b + 2 <= k implies !closes_at(s, k, false) by {
        assert(!closes_at(rest, k - (b + 2), false));
        if k + 1 < s.len() {
            assert(s[k] == rest[k - (b + 2)] && s[k + 1] == rest[k + 1 - (b + 2)]);
        }
    }
    if rest.len() > 0 {
        assert(s[b + 2] == rest[0]);
    }
}

} // verus!
