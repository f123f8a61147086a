//! Which template bodies are handed to the template engine.
//!
//! The engine stops the program, or does not come back, on some bodies. A
//! body is safe where its `{{ }}` and `{% %}` blocks hold none of what
//! leads there:
//!
//! - `+` and `-` as operators: a sum or difference of floats that runs
//!   over is unwrapped. The dash of whitespace control beside a delimiter
//!   is no operator.
//! - `%` as an operator: the remainder of the smallest integer by `-1`
//!   overflows.
//! - a run of `DIGIT_LIMIT` digits: a float literal too large to read is
//!   unwrapped.
//! - the filters `date`, `int` and `abs`: a timestamp out of range, a base
//!   that is none, and the smallest integer stop them.
//! - calls of `get_random`, `range` and `super`: an empty range stops the
//!   first, a step of zero never ends the second, and the third expects a
//!   block around it.
//! - the tags `include`, `import`, `macro` and `block` and a call with
//!   `::`: a body that includes itself, a macro that calls itself, and a
//!   block that holds a block of its own name never end.
//! - tags or brackets nested deeper than `DEPTH_LIMIT`, and a block longer
//!   than `BLOCK_LIMIT` characters: all are read and rendered by
//!   recursion.
//!
//! Strings inside a block, comments and raw blocks are skipped.

use vstd::prelude::*;
use crate::text::chars_of;

verus! {

/// Where a scan of a template body stands.
#[derive(Clone, Copy, Debug, PartialEq, Eq, Structural)]
pub enum Mode {
    /// In text that is written out as it is.
    Text,
    /// In a `{# #}` comment.
    Comment,
    /// Between `{% raw %}` and `{% endraw %}`.
    Raw,
    /// In a `{{ }}` or `{% %}` block.
    Code,
    /// In a string inside a block.
    Quoted,
}

/// The number of digits in a row that a block may not reach. The largest
/// float has 309 digits before the point.
pub const DIGIT_LIMIT: usize = 300;

/// The deepest that tags, and the brackets of a block, may be nested.
pub const DEPTH_LIMIT: usize = 32;

/// The most characters that a block may hold.
pub const BLOCK_LIMIT: usize = 1024;

/// The state of a scan.
pub struct Scan {
    /// The position of the next character.
    pub at: int,
    pub mode: Mode,
    /// Where the block that the scan is in opened.
    pub open_at: int,
    /// The digits in a row before `at`.
    pub digits: int,
    /// What ends the string that the scan is in.
    pub quote: char,
    /// Whether the scan is in a word, and where the word started.
    pub in_word: bool,
    pub word_at: int,
    /// Whether a `|` stood before the word, which makes it a filter.
    pub piped: bool,
    /// The last character of the block that was neither blank nor of a word.
    pub last: char,
    /// Whether the block is a tag whose first word has not ended.
    pub tag: bool,
    /// How many tags are open around `at`.
    pub depth: int,
    /// How many brackets of the block are open before `at`.
    pub brackets: int,
}

/// Whether the characters `a` and `b` stand at `i` and after it.
pub open spec fn pair_at(s: Seq<char>, i: int, a: char, b: char) -> bool {
    0 <= i && i + 1 < s.len() && s[i] == a && s[i + 1] == b
}

/// Whether a block ends at `i`.
pub open spec fn closes_at(s: Seq<char>, i: int) -> bool {
    pair_at(s, i, '}', '}') || pair_at(s, i, '%', '}')
}

/// Whether a character starts and ends a string.
pub open spec fn is_quote(c: char) -> bool {
    c == '"' || c == '\'' || c == '`'
}

/// Whether a character is an ASCII digit.
pub open spec fn is_digit(c: char) -> bool {
    '0' <= c && c <= '9'
}

/// Whether a character is part of a word: a letter, a digit or `_`.
pub open spec fn is_word_char(c: char) -> bool {
    is_digit(c) || ('a' <= c && c <= 'z') || ('A' <= c && c <= 'Z') || c == '_'
}

/// Whether a character is white space between the tokens of a block.
pub open spec fn is_blank(c: char) -> bool {
    c == ' ' || c == '\t' || c == '\r' || c == '\n'
}

/// The first position from `i` on that holds no white space.
pub open spec fn skip_blanks(s: Seq<char>, i: int) -> int
    decreases s.len() - i,
{
    if 0 <= i < s.len() && is_blank(s[i]) {
        skip_blanks(s, i + 1)
    } else {
        i
    }
}

/// Whether `word` stands at `i`.
pub open spec fn word_at(s: Seq<char>, i: int, word: Seq<char>) -> bool {
    0 <= i && i + word.len() <= s.len() && s.subrange(i, i + word.len()) == word
}

/// Where the tag that is made of `word` alone ends, if it stands at `i`:
/// the opening delimiter, the word and the closing delimiter, with white
/// space and the dashes of whitespace control between them. `-1` where no
/// such tag stands at `i`.
pub open spec fn bare_tag_end(s: Seq<char>, i: int, word: Seq<char>) -> int {
    let dash = if i + 2 < s.len() && s[i + 2] == '-' {
        i + 3
    } else {
        i + 2
    };
    let start = skip_blanks(s, dash);
    let after = skip_blanks(s, start + word.len());
    let close = if 0 <= after < s.len() && s[after] == '-' {
        after + 1
    } else {
        after
    };
    if pair_at(s, i, '{', '%') && word_at(s, start, word) && pair_at(s, close, '%', '}') {
        close + 2
    } else {
        -1
    }
}

/// Whether a filter is one that can stop the program.
pub open spec fn is_unsafe_filter(w: Seq<char>) -> bool {
    w == "date"@ || w == "int"@ || w == "abs"@
}

/// Whether a function is one that can stop the program or never end.
pub open spec fn is_unsafe_function(w: Seq<char>) -> bool {
    w == "get_random"@ || w == "range"@ || w == "super"@
}

/// Whether a tag is one that can make a body render itself.
pub open spec fn is_unsafe_tag(w: Seq<char>) -> bool {
    w == "include"@ || w == "import"@ || w == "macro"@ || w == "block"@
}

/// Whether a tag opens a body that an `end` tag closes.
pub open spec fn opens_body(w: Seq<char>) -> bool {
    w == "if"@ || w == "for"@ || w == "filter"@
}

/// Whether a tag closes a body.
pub open spec fn closes_body(w: Seq<char>) -> bool {
    w.len() >= 3 && w[0] == 'e' && w[1] == 'n' && w[2] == 'd'
}

/// Whether what follows `i`, after white space, opens the arguments of a
/// call.
pub open spec fn calls_at(s: Seq<char>, i: int) -> bool {
    let at = skip_blanks(s, i);
    0 <= at < s.len() && s[at] == '('
}

/// The scan after the word that ends before `c.at`, or `None` where the
/// word is not safe. A scan that is in no word stays as it is.
pub open spec fn end_word(s: Seq<char>, c: Scan) -> Option<Scan> {
    let w = s.subrange(c.word_at, c.at);
    let depth = if c.tag && opens_body(w) {
        c.depth + 1
    } else if c.tag && closes_body(w) && c.depth > 0 {
        c.depth - 1
    } else {
        c.depth
    };
    let last = if c.tag && w == "filter"@ {
        '|'
    } else {
        c.last
    };
    if !c.in_word {
        Some(c)
    } else if c.piped && is_unsafe_filter(w) {
        None
    } else if is_unsafe_function(w) && calls_at(s, c.at) {
        None
    } else if c.tag && is_unsafe_tag(w) {
        None
    } else if depth > DEPTH_LIMIT {
        None
    } else {
        Some(Scan { in_word: false, tag: false, depth, last, ..c })
    }
}

/// The scan one step on from a position in a block, or `None` where what
/// stands there is not safe.
pub open spec fn step_code(s: Seq<char>, c: Scan) -> Option<Scan> {
    let i = c.at;
    let ch = s[i];
    let digits = if is_digit(ch) {
        c.digits + 1
    } else {
        0
    };
    if i - c.open_at > BLOCK_LIMIT {
        None
    } else if is_word_char(ch) {
        if digits >= DIGIT_LIMIT {
            None
        } else if c.in_word {
            Some(Scan { at: i + 1, digits, ..c })
        } else {
            Some(Scan { at: i + 1, digits, in_word: true, word_at: i, piped: c.last == '|', ..c })
        }
    } else {
        match end_word(s, c) {
            None => None,
            Some(w) => {
                if closes_at(s, i) {
                    Some(Scan { at: i + 2, mode: Mode::Text, digits: 0, ..w })
                } else if is_quote(ch) {
                    Some(Scan { at: i + 1, mode: Mode::Quoted, quote: ch, digits: 0, last: ch, ..w })
                } else if ch == '+' || ch == '%' || pair_at(s, i, ':', ':') {
                    None
                } else if ch == '-' {
                    if i == c.open_at + 2 || closes_at(s, i + 1) {
                        Some(Scan { at: i + 1, digits: 0, ..w })
                    } else {
                        None
                    }
                } else if is_blank(ch) {
                    Some(Scan { at: i + 1, digits: 0, ..w })
                } else if ch == '(' || ch == '[' {
                    if w.brackets >= DEPTH_LIMIT {
                        None
                    } else {
                        Some(Scan { at: i + 1, digits: 0, last: ch, brackets: w.brackets + 1, ..w })
                    }
                } else if (ch == ')' || ch == ']') && w.brackets > 0 {
                    Some(Scan { at: i + 1, digits: 0, last: ch, brackets: w.brackets - 1, ..w })
                } else {
                    Some(Scan { at: i + 1, digits: 0, last: ch, ..w })
                }
            },
        }
    }
}

/// The scan one step on, or `None` where what stands at `c.at` is not
/// safe.
pub open spec fn step(s: Seq<char>, c: Scan) -> Option<Scan> {
    let i = c.at;
    match c.mode {
        Mode::Text => {
            if pair_at(s, i, '{', '{') {
                Some(
                    Scan {
                        at: i + 2,
                        mode: Mode::Code,
                        open_at: i,
                        digits: 0,
                        in_word: false,
                        last: ' ',
                        tag: false,
                        brackets: 0,
                        ..c
                    },
                )
            } else if bare_tag_end(s, i, "raw"@) >= 0 {
                Some(Scan { at: bare_tag_end(s, i, "raw"@), mode: Mode::Raw, ..c })
            } else if pair_at(s, i, '{', '%') {
                Some(
                    Scan {
                        at: i + 2,
                        mode: Mode::Code,
                        open_at: i,
                        digits: 0,
                        in_word: false,
                        last: ' ',
                        tag: true,
                        brackets: 0,
                        ..c
                    },
                )
            } else if pair_at(s, i, '{', '#') {
                Some(Scan { at: i + 2, mode: Mode::Comment, ..c })
            } else {
                Some(Scan { at: i + 1, ..c })
            }
        },
        Mode::Comment => {
            if pair_at(s, i, '#', '}') {
                Some(Scan { at: i + 2, mode: Mode::Text, ..c })
            } else {
                Some(Scan { at: i + 1, ..c })
            }
        },
        Mode::Raw => {
            if bare_tag_end(s, i, "endraw"@) >= 0 {
                Some(Scan { at: bare_tag_end(s, i, "endraw"@), mode: Mode::Text, ..c })
            } else {
                Some(Scan { at: i + 1, ..c })
            }
        },
        Mode::Code => step_code(s, c),
        Mode::Quoted => {
            if i - c.open_at > BLOCK_LIMIT {
                None
            } else if s[i] == c.quote {
                Some(Scan { at: i + 1, mode: Mode::Code, ..c })
            } else {
                Some(Scan { at: i + 1, ..c })
            }
        },
    }
}

/// Whether the rest of a body, from the position of the scan on, is safe.
/// At the end of the body the scan has to stand in text.
pub open spec fn scan(s: Seq<char>, c: Scan) -> bool
    decreases s.len() - c.at,
{
    if c.at < 0 || c.at >= s.len() {
        c.mode == Mode::Text
    } else {
        match step(s, c) {
            Some(next) => next.at > c.at && scan(s, next),
            None => false,
        }
    }
}

/// The scan at the start of a body.
pub open spec fn start() -> Scan {
    Scan {
        at: 0,
        mode: Mode::Text,
        open_at: 0,
        digits: 0,
        quote: '"',
        in_word: false,
        word_at: 0,
        piped: false,
        last: ' ',
        tag: false,
        depth: 0,
        brackets: 0,
    }
}

/// Whether a template body is safe to hand to the template engine.
pub open spec fn template_is_safe(s: Seq<char>) -> bool {
    scan(s, start())
}

/// A body without an opening brace holds no block and is safe.
pub proof fn lemma_text_without_braces_is_safe(s: Seq<char>)
    requires
        forall|i: int| 0 <= i < s.len() ==> s[i] != '{',
    ensures
        template_is_safe(s),
{
    lemma_text_is_safe_from(s, start());
}

/// Text without an opening brace is safe from any position on.
proof fn lemma_text_is_safe_from(s: Seq<char>, c: Scan)
    requires
        forall|j: int| 0 <= j < s.len() ==> s[j] != '{',
        c.mode == Mode::Text,
        0 <= c.at,
    ensures
        scan(s, c),
    decreases s.len() - c.at,
{
    if c.at < s.len() {
        assert(s[c.at] != '{');
        assert(bare_tag_end(s, c.at, "raw"@) == -1);
        lemma_text_is_safe_from(s, Scan { at: c.at + 1, ..c });
    }
}

/// The state of a scan, as it is run.
#[derive(Clone, Copy, Debug)]
pub struct Cursor {
    at: usize,
    mode: Mode,
    open_at: usize,
    digits: usize,
    quote: char,
    in_word: bool,
    word_at: usize,
    piped: bool,
    last: char,
    tag: bool,
    depth: usize,
    brackets: usize,
}

impl View for Cursor {
    type V = Scan;

    closed spec fn view(&self) -> Scan {
        Scan {
            at: self.at as int,
            mode: self.mode,
            open_at: self.open_at as int,
            digits: self.digits as int,
            quote: self.quote,
            in_word: self.in_word,
            word_at: self.word_at as int,
            piped: self.piped,
            last: self.last,
            tag: self.tag,
            depth: self.depth as int,
            brackets: self.brackets as int,
        }
    }
}

impl Cursor {
    /// Whether the scan stands within the body, behind the start of its
    /// block and of its word, and within its limits.
    closed spec fn fits(&self, s: Seq<char>) -> bool {
        &&& self.at <= s.len()
        &&& self.open_at <= self.at
        &&& self.word_at <= self.at
        &&& self.digits < DIGIT_LIMIT
        &&& self.depth <= DEPTH_LIMIT
        &&& self.brackets <= DEPTH_LIMIT
    }
}

/// The scan of an optional cursor.
closed spec fn scan_of(o: Option<Cursor>) -> Option<Scan> {
    match o {
        Some(c) => Some(c@),
        None => None,
    }
}

/// Whether the characters `a` and `b` stand at `i` and after it.
fn pair(cs: &Vec<char>, i: usize, a: char, b: char) -> (r: bool)
    ensures
        r == pair_at(cs@, i as int, a, b),
{
    i < cs.len() && cs.len() - i > 1 && cs[i] == a && cs[i + 1] == b
}

/// Whether a block ends at `i`.
fn closes(cs: &Vec<char>, i: usize) -> (r: bool)
    ensures
        r == closes_at(cs@, i as int),
{
    pair(cs, i, '}', '}') || pair(cs, i, '%', '}')
}

/// The first position from `i` on that holds no white space.
fn blanks_end(cs: &Vec<char>, i: usize) -> (at: usize)
    ensures
        at == skip_blanks(cs@, i as int),
        i <= at,
        i <= cs.len() ==> at <= cs.len(),
{
    let mut at: usize = i;
    while at < cs.len() && (cs[at] == ' ' || cs[at] == '\t' || cs[at] == '\r' || cs[at] == '\n')
        invariant
            i <= at,
            i <= cs.len() ==> at <= cs.len(),
            skip_blanks(cs@, i as int) == skip_blanks(cs@, at as int),
        decreases cs.len() - at,
    {
        at = at + 1;
    }
    at
}

/// Whether the characters from `from` up to `to` are those of `word`.
fn same(cs: &Vec<char>, from: usize, to: usize, word: &str) -> (r: bool)
    requires
        from <= to <= cs.len(),
    ensures
        r == (cs@.subrange(from as int, to as int) == word@),
{
    let w = chars_of(word);
    if w.len() != to - from {
        return false;
    }
    let mut k: usize = 0;
    while k < w.len()
        invariant
            k <= w.len(),
            w.len() == to - from,
            from <= to <= cs.len(),
            w@ == word@,
            forall|j: int| 0 <= j < k ==> cs@[from + j] == w@[j],
        decreases w.len() - k,
    {
        if cs[from + k] != w[k] {
            assert(cs@.subrange(from as int, to as int)[k as int] != w@[k as int]);
            return false;
        }
        k = k + 1;
    }
    assert(cs@.subrange(from as int, to as int) =~= w@);
    true
}

/// Where the tag that is made of `word` alone ends, if it stands at `i`.
fn bare_tag(cs: &Vec<char>, i: usize, word: &str) -> (r: Option<usize>)
    requires
        i < cs.len(),
    ensures
        match r {
            Some(end) => end == bare_tag_end(cs@, i as int, word@) && i < end <= cs.len(),
            None => bare_tag_end(cs@, i as int, word@) == -1,
        },
{
    if !pair(cs, i, '{', '%') {
        return None;
    }
    let dash = if cs.len() - i > 2 && cs[i + 2] == '-' {
        i + 3
    } else {
        i + 2
    };
    let start = blanks_end(cs, dash);
    let len = chars_of(word).len();
    if cs.len() - start < len {
        return None;
    }
    if !same(cs, start, start + len, word) {
        return None;
    }
    let after = blanks_end(cs, start + len);
    let close = if after < cs.len() && cs[after] == '-' {
        after + 1
    } else {
        after
    };
    if pair(cs, close, '%', '}') {
        Some(close + 2)
    } else {
        None
    }
}

/// The scan after the word that ends before the cursor.
fn finish_word(cs: &Vec<char>, c: Cursor) -> (r: Option<Cursor>)
    requires
        c.fits(cs@),
    ensures
        scan_of(r) == end_word(cs@, c@),
        r matches Some(next) ==> next.fits(cs@) && next.at == c.at && next.open_at == c.open_at
            && next.brackets == c.brackets,
{
    if !c.in_word {
        return Some(c);
    }
    let from = c.word_at;
    let to = c.at;
    let ghost w = cs@.subrange(from as int, to as int);
    if c.piped && (same(cs, from, to, "date") || same(cs, from, to, "int") || same(
        cs,
        from,
        to,
        "abs",
    )) {
        return None;
    }
    if same(cs, from, to, "get_random") || same(cs, from, to, "range") || same(
        cs,
        from,
        to,
        "super",
    ) {
        let at = blanks_end(cs, to);
        if at < cs.len() && cs[at] == '(' {
            return None;
        }
    }
    let mut depth = c.depth;
    let mut last = c.last;
    if c.tag {
        if same(cs, from, to, "include") || same(cs, from, to, "import") || same(
            cs,
            from,
            to,
            "macro",
        ) || same(cs, from, to, "block") {
            return None;
        }
        let opens = same(cs, from, to, "if") || same(cs, from, to, "for") || same(
            cs,
            from,
            to,
            "filter",
        );
        let ends = to - from >= 3 && cs[from] == 'e' && cs[from + 1] == 'n' && cs[from + 2] == 'd';
        assert(ends == closes_body(w));
        if opens {
            if depth >= DEPTH_LIMIT {
                return None;
            }
            depth = depth + 1;
        } else if ends && depth > 0 {
            depth = depth - 1;
        }
        if same(cs, from, to, "filter") {
            last = '|';
        }
    }
    Some(Cursor { in_word: false, tag: false, depth, last, ..c })
}

/// The scan one step on from a position in a block.
fn advance_code(cs: &Vec<char>, c: Cursor) -> (r: Option<Cursor>)
    requires
        c.fits(cs@),
        c.at < cs.len(),
    ensures
        scan_of(r) == step_code(cs@, c@),
        r matches Some(next) ==> next.fits(cs@) && next.at > c.at,
{
    let i = c.at;
    let ch = cs[i];
    if i - c.open_at > BLOCK_LIMIT {
        return None;
    }
    let digit = '0' <= ch && ch <= '9';
    if digit || ('a' <= ch && ch <= 'z') || ('A' <= ch && ch <= 'Z') || ch == '_' {
        let digits = if digit {
            c.digits + 1
        } else {
            0
        };
        if digits >= DIGIT_LIMIT {
            return None;
        }
        if c.in_word {
            return Some(Cursor { at: i + 1, digits, ..c });
        }
        return Some(
            Cursor { at: i + 1, digits, in_word: true, word_at: i, piped: c.last == '|', ..c },
        );
    }
    let w = match finish_word(cs, c) {
        Some(w) => w,
        None => {
            return None;
        },
    };
    if closes(cs, i) {
        Some(Cursor { at: i + 2, mode: Mode::Text, digits: 0, ..w })
    } else if ch == '"' || ch == '\'' || ch == '`' {
        Some(Cursor { at: i + 1, mode: Mode::Quoted, quote: ch, digits: 0, last: ch, ..w })
    } else if ch == '+' || ch == '%' || pair(cs, i, ':', ':') {
        None
    } else if ch == '-' {
        if i - c.open_at == 2 || closes(cs, i + 1) {
            Some(Cursor { at: i + 1, digits: 0, ..w })
        } else {
            None
        }
    } else if ch == ' ' || ch == '\t' || ch == '\r' || ch == '\n' {
        Some(Cursor { at: i + 1, digits: 0, ..w })
    } else if ch == '(' || ch == '[' {
        if w.brackets >= DEPTH_LIMIT {
            None
        } else {
            Some(Cursor { at: i + 1, digits: 0, last: ch, brackets: w.brackets + 1, ..w })
        }
    } else if (ch == ')' || ch == ']') && w.brackets > 0 {
        Some(Cursor { at: i + 1, digits: 0, last: ch, brackets: w.brackets - 1, ..w })
    } else {
        Some(Cursor { at: i + 1, digits: 0, last: ch, ..w })
    }
}

/// The scan one step on.
fn advance(cs: &Vec<char>, c: Cursor) -> (r: Option<Cursor>)
    requires
        c.fits(cs@),
        c.at < cs.len(),
    ensures
        scan_of(r) == step(cs@, c@),
        r matches Some(next) ==> next.fits(cs@) && next.at > c.at,
{
    let i = c.at;
    match c.mode {
        Mode::Text => {
            if pair(cs, i, '{', '{') {
                return Some(
                    Cursor {
                        at: i + 2,
                        mode: Mode::Code,
                        open_at: i,
                        digits: 0,
                        in_word: false,
                        last: ' ',
                        tag: false,
                        brackets: 0,
                        ..c
                    },
                );
            }
            match bare_tag(cs, i, "raw") {
                Some(end) => {
                    return Some(Cursor { at: end, mode: Mode::Raw, ..c });
                },
                None => {},
            }
            if pair(cs, i, '{', '%') {
                Some(
                    Cursor {
                        at: i + 2,
                        mode: Mode::Code,
                        open_at: i,
                        digits: 0,
                        in_word: false,
                        last: ' ',
                        tag: true,
                        brackets: 0,
                        ..c
                    },
                )
            } else if pair(cs, i, '{', '#') {
                Some(Cursor { at: i + 2, mode: Mode::Comment, ..c })
            } else {
                Some(Cursor { at: i + 1, ..c })
            }
        },
        Mode::Comment => {
            if pair(cs, i, '#', '}') {
                Some(Cursor { at: i + 2, mode: Mode::Text, ..c })
            } else {
                Some(Cursor { at: i + 1, ..c })
            }
        },
        Mode::Raw => {
            match bare_tag(cs, i, "endraw") {
                Some(end) => Some(Cursor { at: end, mode: Mode::Text, ..c }),
                None => Some(Cursor { at: i + 1, ..c }),
            }
        },
        Mode::Code => advance_code(cs, c),
        Mode::Quoted => {
            if i - c.open_at > BLOCK_LIMIT {
                None
            } else if cs[i] == c.quote {
                Some(Cursor { at: i + 1, mode: Mode::Code, ..c })
            } else {
                Some(Cursor { at: i + 1, ..c })
            }
        },
    }
}

/// Whether a template body is safe to hand to the template engine.
pub fn is_safe_template(template: &str) -> (r: bool)
    ensures
        r == template_is_safe(template@),
{
    let cs = chars_of(template);
    let mut c = Cursor {
        at: 0,
        mode: Mode::Text,
        open_at: 0,
        digits: 0,
        quote: '"',
        in_word: false,
        word_at: 0,
        piped: false,
        last: ' ',
        tag: false,
        depth: 0,
        brackets: 0,
    };
    assert(c@ == start());
    while c.at < cs.len()
        invariant
            c.fits(cs@),
            cs@ == template@,
            template_is_safe(template@) == scan(cs@, c@),
        decreases cs.len() - c.at,
    {
        match advance(&cs, c) {
            Some(next) => {
                c = next;
            },
            None => {
                return false;
            },
        }
    }
    c.mode == Mode::Text
}

} // verus!
