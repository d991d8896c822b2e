//! The manifest block that may stand at the head of a submission:
//! `where cargo: { .. }`, followed by the program body.

use vstd::prelude::*;
use crate::manifest::{parse_table, table_entries, toml_document, Node};
use crate::text::{chars_of, occurs_at, starts_at};

verus! {

/// Whether `c` is white space (the Unicode property White_Space).
pub open spec fn is_space(c: char) -> bool {
    let n = c as u32;
    ||| 0x09 <= n <= 0x0D
    ||| n == 0x20
    ||| n == 0x85
    ||| n == 0xA0
    ||| n == 0x1680
    ||| 0x2000 <= n <= 0x200A
    ||| n == 0x2028
    ||| n == 0x2029
    ||| n == 0x202F
    ||| n == 0x205F
    ||| n == 0x3000
}

/// Decides whether `c` is white space.
pub fn space(c: char) -> (b: bool)
    ensures
        b == is_space(c),
{
    let n: u32 = c as u32;
    (0x09 <= n && n <= 0x0D) || n == 0x20 || n == 0x85 || n == 0xA0 || n == 0x1680 || (0x2000 <= n
        && n <= 0x200A) || n == 0x2028 || n == 0x2029 || n == 0x202F || n == 0x205F || n == 0x3000
}

/// Whether a character beyond ASCII can continue an identifier: the
/// Unicode property XID_Continue, as the parser library decides it.
pub uninterp spec fn ident_continue(c: char) -> bool;

/// Whether `c` is an ASCII letter, an ASCII digit or the underscore.
pub open spec fn is_ascii_word(c: char) -> bool {
    ||| 'a' <= c <= 'z'
    ||| 'A' <= c <= 'Z'
    ||| '0' <= c <= '9'
    ||| c == '_'
}

/// Whether `c` can stand inside a word after its first character.
pub open spec fn continues_word(c: char) -> bool {
    if c <= '\u{7f}' {
        is_ascii_word(c)
    } else {
        ident_continue(c)
    }
}

/// chumsky's `Char::is_ident_continue` for `char`, which asks the
/// `unicode-ident` crate for XID_Continue: whether the character can stand
/// inside an identifier after its first character. Of the ASCII characters
/// these are the letters, the digits and the underscore, which is what that
/// crate's bit mask for them holds.
#[verifier::external_body]
fn continues_ident(c: char) -> (b: bool)
    ensures
        c <= '\u{7f}' ==> b == is_ascii_word(c),
        c > '\u{7f}' ==> b == ident_continue(c),
{
    chumsky::text::Char::is_ident_continue(&c)
}

/// The word that introduces a manifest.
pub open spec fn keyword() -> Seq<char> {
    seq!['w', 'h', 'e', 'r', 'e']
}

/// The namespace that must follow the keyword.
pub open spec fn namespace() -> Seq<char> {
    seq!['c', 'a', 'r', 'g', 'o']
}

/// The first index from `at` on that holds no white space.
pub open spec fn after_spaces(s: Seq<char>, at: int) -> int
    decreases s.len() - at,
{
    if 0 <= at < s.len() && is_space(s[at]) {
        after_spaces(s, at + 1)
    } else {
        at
    }
}

/// Whether the word that starts at `at` is exactly `word`: it stands there
/// and no character that continues a word follows it.
pub open spec fn word_at(s: Seq<char>, at: int, word: Seq<char>) -> bool {
    &&& occurs_at(s, at, word)
    &&& at + word.len() < s.len() ==> !continues_word(s[at + word.len()])
}

/// The index of the brace that closes a block, searched from `at` with
/// `depth` inner braces still open, or `None` where the text ends first.
pub open spec fn block_end(s: Seq<char>, at: int, depth: nat) -> Option<int>
    decreases s.len() - at,
{
    if at < 0 || at >= s.len() {
        None
    } else if s[at] == '}' {
        if depth == 0 {
            Some(at)
        } else {
            block_end(s, at + 1, (depth - 1) as nat)
        }
    } else if s[at] == '{' {
        block_end(s, at + 1, depth + 1)
    } else {
        block_end(s, at + 1, depth)
    }
}

/// What the grammar asked for where it failed.
#[derive(Clone, Copy, Debug, PartialEq, Eq)]
pub enum Expected {
    /// The namespace `cargo` after the keyword.
    Namespace,
    /// The colon after the namespace.
    Colon,
    /// The brace that opens the block.
    Open,
    /// The brace that closes the block.
    Close,
    /// A well-formed table inside the block.
    Table,
}

/// Where the manifest of a source lies. Indices count characters.
pub enum Layout {
    /// The source does not begin with the keyword: all of it is the body.
    Absent,
    /// The block's braces stand at `open` and `close`.
    Block { open: usize, close: usize },
    /// The keyword is there and what follows is no manifest block.
    Broken { expected: Expected, at: usize },
}

/// The layout of the source `s`.
///
/// After leading white space the keyword `where` decides: without it there
/// is no manifest. With it, `cargo`, `:` and `{` must follow, each after
/// optional white space, and the block runs to the brace that closes it.
pub open spec fn layout(s: Seq<char>) -> Layout {
    let p0 = after_spaces(s, 0);
    let p1 = after_spaces(s, p0 + keyword().len());
    let p2 = after_spaces(s, p1 + namespace().len());
    let p3 = after_spaces(s, p2 + 1);
    if !word_at(s, p0, keyword()) {
        Layout::Absent
    } else if !word_at(s, p1, namespace()) {
        Layout::Broken { expected: Expected::Namespace, at: p1 as usize }
    } else if !(p2 < s.len() && s[p2] == ':') {
        Layout::Broken { expected: Expected::Colon, at: p2 as usize }
    } else if !(p3 < s.len() && s[p3] == '{') {
        Layout::Broken { expected: Expected::Open, at: p3 as usize }
    } else {
        match block_end(s, p3 + 1, 0) {
            Some(q) => Layout::Block { open: p3 as usize, close: q as usize },
            None => Layout::Broken { expected: Expected::Close, at: s.len() as usize },
        }
    }
}

/// `after_spaces` stays within the text and never moves back.
pub proof fn lemma_after_spaces_bounds(s: Seq<char>, at: int)
    requires
        0 <= at <= s.len(),
    ensures
        at <= after_spaces(s, at) <= s.len(),
    decreases s.len() - at,
{
    if at < s.len() && is_space(s[at]) {
        lemma_after_spaces_bounds(s, at + 1);
    }
}

/// Skips white space from `at` on.
pub fn skip_spaces(s: &Vec<char>, at: usize) -> (p: usize)
    requires
        at <= s.len(),
    ensures
        p == after_spaces(s@, at as int),
        at <= p <= s.len(),
{
    let mut p = at;
    while p < s.len() && space(s[p])
        invariant
            at <= p <= s.len(),
            after_spaces(s@, p as int) == after_spaces(s@, at as int),
        decreases s.len() - p,
    {
        p += 1;
    }
    p
}

/// Decides whether the identifier at `at` is exactly `word`.
pub fn at_word(s: &Vec<char>, at: usize, word: &Vec<char>) -> (b: bool)
    requires
        at <= s.len(),
    ensures
        b == word_at(s@, at as int, word@),
{
    if !starts_at(s, at, word) {
        return false;
    }
    let end = at + word.len();
    if end < s.len() {
        !continues_ident(s[end])
    } else {
        true
    }
}

/// Finds the brace that closes the block whose content starts at `at`.
pub fn find_block_end(s: &Vec<char>, at: usize) -> (r: Option<usize>)
    requires
        at <= s.len(),
    ensures
        match r {
            Some(q) => block_end(s@, at as int, 0) == Some(q as int) && at <= q < s.len(),
            None => block_end(s@, at as int, 0) is None,
        },
{
    let mut p = at;
    let mut depth: usize = 0;
    while p < s.len()
        invariant
            at <= p <= s.len(),
            depth <= p - at,
            block_end(s@, p as int, depth as nat) == block_end(s@, at as int, 0),
        decreases s.len() - p,
    {
        let c = s[p];
        if c == '}' {
            if depth == 0 {
                return Some(p);
            }
            depth -= 1;
        } else if c == '{' {
            depth += 1;
        }
        p += 1;
    }
    None
}

/// Finds the layout of a source.
pub fn locate(s: &Vec<char>) -> (l: Layout)
    ensures
        l == layout(s@),
        match l {
            Layout::Absent => true,
            Layout::Block { open, close } => open < close < s.len(),
            Layout::Broken { expected, at } => at <= s.len(),
        },
{
    let kw: Vec<char> = vec!['w', 'h', 'e', 'r', 'e'];
    let ns: Vec<char> = vec!['c', 'a', 'r', 'g', 'o'];
    assert(kw@ =~= keyword());
    assert(ns@ =~= namespace());
    let p0 = skip_spaces(s, 0);
    if !at_word(s, p0, &kw) {
        return Layout::Absent;
    }
    let p1 = skip_spaces(s, p0 + 5);
    if !at_word(s, p1, &ns) {
        return Layout::Broken { expected: Expected::Namespace, at: p1 };
    }
    let p2 = skip_spaces(s, p1 + 5);
    if !(p2 < s.len() && s[p2] == ':') {
        return Layout::Broken { expected: Expected::Colon, at: p2 };
    }
    let p3 = skip_spaces(s, p2 + 1);
    if !(p3 < s.len() && s[p3] == '{') {
        return Layout::Broken { expected: Expected::Open, at: p3 };
    }
    match find_block_end(s, p3 + 1) {
        Some(q) => Layout::Block { open: p3, close: q },
        None => Layout::Broken { expected: Expected::Close, at: s.len() },
    }
}

/// Why a source that begins with the keyword is no valid submission.
#[derive(Debug)]
pub struct Error {
    /// What was expected where the reading failed.
    pub expected: Expected,
    /// The index of the character at which it failed.
    pub at: usize,
    /// The table parser's own message where the block's content is at
    /// fault, empty otherwise.
    pub detail: String,
    /// The source that was read.
    pub src: String,
}

/// An `Error` by the text it holds.
pub struct Fault {
    pub expected: Expected,
    pub at: usize,
    pub detail: Seq<char>,
    pub src: Seq<char>,
}

impl View for Error {
    type V = Fault;

    open spec fn view(&self) -> Fault {
        Fault { expected: self.expected, at: self.at, detail: self.detail@, src: self.src@ }
    }
}

/// What the error says was expected.
pub open spec fn expectation(expected: Expected) -> Seq<char> {
    match expected {
        Expected::Namespace => "expected `cargo` after `where`"@,
        Expected::Colon => "expected `:` after `cargo`"@,
        Expected::Open => "expected `{` to open the manifest"@,
        Expected::Close => "expected `}` to close the manifest"@,
        Expected::Table => "expected a TOML table in the manifest: "@,
    }
}

impl Fault {
    /// The error in words: what was expected, and for a malformed table
    /// the table parser's message.
    pub open spec fn message(self) -> Seq<char> {
        expectation(self.expected) + self.detail
    }
}

impl Error {
    /// The error in words.
    pub fn message(&self) -> (m: String)
        ensures
            m@ == self@.message(),
    {
        let mut m = match self.expected {
            Expected::Namespace => String::from_str("expected `cargo` after `where`"),
            Expected::Colon => String::from_str("expected `:` after `cargo`"),
            Expected::Open => String::from_str("expected `{` to open the manifest"),
            Expected::Close => String::from_str("expected `}` to close the manifest"),
            Expected::Table => String::from_str("expected a TOML table in the manifest: "),
        };
        m.append(self.detail.as_str());
        m
    }
}

/// What a source reads as: manifest entries, where it has a manifest, and
/// body; or the fault.
pub type Reading = Result<(Option<Map<Seq<char>, Node>>, Seq<char>), Fault>;

/// What a source with its block between the braces at `open` and `close`
/// reads as, once the table parser has answered `parsed` for the block's
/// content: the table and the text after the closing brace, or the fault
/// with the parser's message.
pub open spec fn block_reading(
    s: Seq<char>,
    open: usize,
    close: usize,
    parsed: Result<Map<Seq<char>, Node>, Seq<char>>,
) -> Reading {
    match parsed {
        Ok(entries) => Ok((Some(entries), s.skip(close + 1))),
        Err(message) => Err(
            Fault { expected: Expected::Table, at: (open + 1) as usize, detail: message, src: s },
        ),
    }
}

/// The reading of the source `s`: the whole source as body where no
/// manifest is announced; the parsed block and the text after its closing
/// brace where one is well-formed; otherwise the fault, which says what was
/// expected and where. Once the keyword stands there, nothing falls back to
/// a reading without manifest.
pub open spec fn reading(s: Seq<char>) -> Reading {
    match layout(s) {
        Layout::Absent => Ok((None, s)),
        Layout::Block { open, close } => block_reading(
            s,
            open,
            close,
            toml_document(s.subrange(open + 1, close as int)),
        ),
        Layout::Broken { expected, at } => Err(
            Fault { expected, at, detail: Seq::empty(), src: s },
        ),
    }
}

/// An extraction by what it holds.
pub open spec fn read(r: Result<(Option<toml::Table>, &str), Error>) -> Reading {
    match r {
        Ok((Some(t), body)) => Ok((Some(table_entries(t)), body@)),
        Ok((None, body)) => Ok((None, body@)),
        Err(e) => Err(e@),
    }
}

/// What the table parser answered, by what it holds.
pub open spec fn parsed_entries(parsed: Result<toml::Table, String>) -> Result<
    Map<Seq<char>, Node>,
    Seq<char>,
> {
    match parsed {
        Ok(t) => Ok(table_entries(t)),
        Err(message) => Err(message@),
    }
}

/// Finishes the reading of a source whose block lies between the braces at
/// `open` and `close`, with the table parser's answer for the block's
/// content.
pub fn read_block(src: &str, open: usize, close: usize, parsed: Result<toml::Table, String>) -> (r:
    Result<(Option<toml::Table>, &str), Error>)
    requires
        open < close < src@.len(),
    ensures
        read(r) == block_reading(src@, open, close, parsed_entries(parsed)),
        parsed matches Ok(t) ==> r matches Ok((Some(table), _)) && table == t,
{
    match parsed {
        Ok(t) => {
            let end = src.unicode_len();
            let body = src.substring_char(close + 1, end);
            Ok((Some(t), body))
        },
        Err(message) => Err(
            Error { expected: Expected::Table, at: open + 1, detail: message, src: src.to_owned() },
        ),
    }
}

/// Splits a submission into its manifest, if it announces one, and its body.
pub fn extract_manifest(src: &str) -> (r: Result<(Option<toml::Table>, &str), Error>)
    ensures
        read(r) == reading(src@),
{
    let s = chars_of(src);
    match locate(&s) {
        Layout::Absent => Ok((None, src)),
        Layout::Broken { expected, at } => Err(
            Error { expected, at, detail: String::new(), src: src.to_owned() },
        ),
        Layout::Block { open, close } => {
            let block = src.substring_char(open + 1, close);
            read_block(src, open, close, parse_table(block))
        },
    }
}

/// Extraction is a function of the source: whatever two extractions of the
/// same text return holds the same manifest entries and body, or the same
/// fault.
pub proof fn lemma_extraction_is_a_function(
    first: Result<(Option<toml::Table>, &str), Error>,
    second: Result<(Option<toml::Table>, &str), Error>,
    source: Seq<char>,
)
    requires
        read(first) == reading(source),
        read(second) == reading(source),
    ensures
        read(first) == read(second),
{
}

/// The keyword commits: a source whose first word is `where` never reads
/// as a source without manifest, and any other source reads as its own
/// body.
pub proof fn lemma_keyword_commits(source: Seq<char>)
    ensures
        word_at(source, after_spaces(source, 0), keyword()) ==> !(reading(source) matches Ok(
            (None, _),
        )),
        !word_at(source, after_spaces(source, 0), keyword()) ==> reading(source) == Ok::<
            (Option<Map<Seq<char>, Node>>, Seq<char>),
            Fault,
        >((None, source)),
{
}

/// What is read with a manifest is cut out of the source: the block's
/// content lies between its braces and is balanced, and the body is all
/// that follows the closing brace.
pub proof fn lemma_body_follows_the_block(source: Seq<char>)
    requires
        source.len() <= usize::MAX,
        reading(source) matches Ok((Some(_), _)),
    ensures
        layout(source) matches Layout::Block { open, close } && open < close < source.len()
            && source[open as int] == '{' && source[close as int] == '}' && excess(
            source.subrange(open + 1, close as int),
        ) == 0 && reading(source)->Ok_0.1 == source.skip(close + 1),
{
    let p0 = after_spaces(source, 0);
    lemma_after_spaces_bounds(source, 0);
    let p1 = after_spaces(source, p0 + keyword().len());
    lemma_after_spaces_bounds(source, p0 + keyword().len());
    let p2 = after_spaces(source, p1 + namespace().len());
    lemma_after_spaces_bounds(source, p1 + namespace().len());
    let p3 = after_spaces(source, p2 + 1);
    lemma_after_spaces_bounds(source, p2 + 1);
    lemma_block_end_matches(source, p3 + 1, 0);
}

/// What a character adds to the number of open braces.
pub open spec fn brace(c: char) -> int {
    if c == '{' {
        1
    } else if c == '}' {
        -1
    } else {
        0
    }
}

/// How many more braces `s` opens than it closes.
pub open spec fn excess(s: Seq<char>) -> int
    decreases s.len(),
{
    if s.len() == 0 {
        0
    } else {
        brace(s[0]) + excess(s.skip(1))
    }
}

/// The brace that `block_end` finds is the one that matches: it is a
/// closing brace, what stands before it closes exactly the braces that were
/// open and those it opens itself, and no closing brace before it does.
pub proof fn lemma_block_end_matches(s: Seq<char>, at: int, depth: nat)
    requires
        0 <= at,
        block_end(s, at, depth) is Some,
    ensures
        at <= block_end(s, at, depth)->0 < s.len(),
        s[block_end(s, at, depth)->0] == '}',
        depth + excess(s.subrange(at, block_end(s, at, depth)->0)) == 0,
        forall|p: int|
            at <= p < block_end(s, at, depth)->0 && s[p] == '}' ==> depth + excess(
                #[trigger] s.subrange(at, p),
            ) >= 1,
    decreases s.len() - at,
{
    let q = block_end(s, at, depth)->0;
    if s[at] == '}' && depth == 0 {
        assert(s.subrange(at, at) =~= Seq::<char>::empty());
    } else {
        let inner: nat = if s[at] == '}' {
            (depth - 1) as nat
        } else if s[at] == '{' {
            depth + 1
        } else {
            depth
        };
        lemma_block_end_matches(s, at + 1, inner);
        assert(s.subrange(at, q).skip(1) =~= s.subrange(at + 1, q));
        assert forall|p: int| at <= p < q && s[p] == '}' implies depth + excess(
            #[trigger] s.subrange(at, p),
        ) >= 1 by {
            if p == at {
                assert(s.subrange(at, at) =~= Seq::<char>::empty());
            } else {
                assert(s.subrange(at, p).skip(1) =~= s.subrange(at + 1, p));
            }
        }
    }
}

} // verus!
