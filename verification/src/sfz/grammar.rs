//! The tokens of an SFZ file.
//!
//! A file is a row of headers `<name>`, opcodes `name=value`, definitions
//! `#define $NAME value` and imports of other files, with comments from `//` to
//! the end of the line between them. The value of an opcode may hold spaces: it
//! goes on over the words of its line until a word begins a header, a comment or
//! another opcode. What is none of these is passed over.

use crate::text::{chars_of, stands_at, text_of, word_at};
use vstd::prelude::*;

verus! {

/// A token of an SFZ file.
#[derive(Debug)]
pub enum Token<T = String> {
    /// `<name>`.
    Group(T),
    /// `name=value`.
    Opcode { name: T, value: T },
    /// A file to be read in this place.
    Import(T),
    /// `#define $NAME value`.
    Define { variable: T, value: T },
}

impl DeepView for Token {
    type V = Token<Seq<char>>;

    open spec fn deep_view(&self) -> Token<Seq<char>> {
        match *self {
            Token::Group(name) => Token::Group(name@),
            Token::Opcode { name, value } => Token::Opcode { name: name@, value: value@ },
            Token::Import(path) => Token::Import(path@),
            Token::Define { variable, value } => Token::Define {
                variable: variable@,
                value: value@,
            },
        }
    }
}

/// A character between words.
pub open spec fn is_space(c: char) -> bool {
    c == ' ' || c == '\t' || c == '\n' || c == '\r'
}

/// A character that ends a line.
pub open spec fn is_break(c: char) -> bool {
    c == '\n' || c == '\r'
}

/// The end of the word that begins at `at`: the next space or the next header.
pub open spec fn word_end(s: Seq<char>, at: int) -> int
    decreases s.len() - at,
{
    if 0 <= at < s.len() && !is_space(s[at]) && s[at] != '<' {
        word_end(s, at + 1)
    } else {
        at
    }
}

/// The next character from `at` on that is no space within a line.
pub open spec fn blank_end(s: Seq<char>, at: int) -> int
    decreases s.len() - at,
{
    if 0 <= at < s.len() && (s[at] == ' ' || s[at] == '\t') {
        blank_end(s, at + 1)
    } else {
        at
    }
}

/// The end of the line that `at` lies on.
pub open spec fn line_end(s: Seq<char>, at: int) -> int
    decreases s.len() - at,
{
    if 0 <= at < s.len() && !is_break(s[at]) {
        line_end(s, at + 1)
    } else {
        at
    }
}

/// The next `c` from `at` on, or `to`.
pub open spec fn char_before(s: Seq<char>, c: char, at: int, to: int) -> int
    decreases to - at,
{
    if 0 <= at < to && s[at] != c {
        char_before(s, c, at + 1, to)
    } else {
        at
    }
}

/// A comment begins at `at`.
pub open spec fn comment_at(s: Seq<char>, at: int) -> bool {
    0 <= at && at + 1 < s.len() && s[at] == '/' && s[at + 1] == '/'
}

/// The value of an opcode goes on with the word at `at`.
pub open spec fn value_goes_on(s: Seq<char>, at: int) -> bool {
    let end = word_end(s, at);
    &&& 0 <= at < s.len()
    &&& end > at
    &&& !comment_at(s, at)
    &&& char_before(s, '=', at, end) == end
}

/// The end of a value one of whose words begins at `at`.
pub open spec fn value_end(s: Seq<char>, at: int) -> int
    decreases s.len() - at,
{
    let end = word_end(s, at);
    let next = blank_end(s, end);
    if at <= end < next && value_goes_on(s, next) {
        value_end(s, next)
    } else {
        end
    }
}

/// The letters that begin the import of a file.
pub open spec fn import_word() -> Seq<char> {
    "#inc"@ + "lude"@
}

/// The token at `at`, if one begins there, and where the text goes on after it.
/// The character at `at` is no space.
pub open spec fn token_at(s: Seq<char>, at: int) -> (Option<Token<Seq<char>>>, int) {
    let line = line_end(s, at);
    let word = word_end(s, at);
    let equals = char_before(s, '=', at, word);
    let passed = if word > at {
        word
    } else {
        at + 1
    };
    if comment_at(s, at) {
        (None, line)
    } else if s[at] == '<' {
        let close = char_before(s, '>', at + 1, line);
        if close < line {
            (Some(Token::Group(s.subrange(at + 1, close))), close + 1)
        } else {
            (None, at + 1)
        }
    } else if stands_at(s, import_word(), at) {
        let open = blank_end(s, at + import_word().len());
        let close = char_before(s, '"', open + 1, line);
        if open < line && s[open] == '"' && close < line {
            (Some(Token::Import(s.subrange(open + 1, close))), close + 1)
        } else {
            (None, passed)
        }
    } else if stands_at(s, "#define"@, at) {
        let name = blank_end(s, at + "#define"@.len());
        let name_end = word_end(s, name);
        let value = blank_end(s, name_end);
        let value_end = word_end(s, value);
        if name < s.len() && s[name] == '$' && value_end > value > name_end {
            (
                Some(
                    Token::Define {
                        variable: s.subrange(name, name_end),
                        value: s.subrange(value, value_end),
                    },
                ),
                value_end,
            )
        } else {
            (None, passed)
        }
    } else if at < equals && equals + 1 < word {
        let end = value_end(s, equals + 1);
        (
            Some(
                Token::Opcode {
                    name: s.subrange(at, equals),
                    value: s.subrange(equals + 1, end),
                },
            ),
            end,
        )
    } else {
        (None, passed)
    }
}

/// The tokens from `at` on.
pub open spec fn tokens_from(s: Seq<char>, at: int) -> Seq<Token<Seq<char>>>
    decreases s.len() - at,
{
    if !(0 <= at < s.len()) {
        Seq::empty()
    } else if is_space(s[at]) {
        tokens_from(s, at + 1)
    } else {
        let (token, next) = token_at(s, at);
        let rest = if at < next <= s.len() {
            tokens_from(s, next)
        } else {
            Seq::empty()
        };
        match token {
            Some(t) => seq![t] + rest,
            None => rest,
        }
    }
}

proof fn line_end_bounds(s: Seq<char>, at: int)
    requires
        0 <= at <= s.len(),
    ensures
        at <= line_end(s, at) <= s.len(),
    decreases s.len() - at,
{
    if at < s.len() {
        line_end_bounds(s, at + 1);
    }
}

fn space(c: char) -> (r: bool)
    ensures
        r == is_space(c),
{
    c == ' ' || c == '\t' || c == '\n' || c == '\r'
}

fn find_word_end(chars: &Vec<char>, at: usize) -> (r: usize)
    requires
        at <= chars.len(),
    ensures
        r == word_end(chars@, at as int),
        at <= r <= chars.len(),
{
    let mut i: usize = at;
    while i < chars.len() && !space(chars[i]) && chars[i] != '<'
        invariant
            at <= i <= chars.len(),
            word_end(chars@, at as int) == word_end(chars@, i as int),
        decreases chars.len() - i,
    {
        i = i + 1;
    }
    i
}

fn find_blank_end(chars: &Vec<char>, at: usize) -> (r: usize)
    requires
        at <= chars.len(),
    ensures
        r == blank_end(chars@, at as int),
        at <= r <= chars.len(),
{
    let mut i: usize = at;
    while i < chars.len() && (chars[i] == ' ' || chars[i] == '\t')
        invariant
            at <= i <= chars.len(),
            blank_end(chars@, at as int) == blank_end(chars@, i as int),
        decreases chars.len() - i,
    {
        i = i + 1;
    }
    i
}

fn find_line_end(chars: &Vec<char>, at: usize) -> (r: usize)
    requires
        at <= chars.len(),
    ensures
        r == line_end(chars@, at as int),
        at <= r <= chars.len(),
{
    let mut i: usize = at;
    while i < chars.len() && chars[i] != '\n' && chars[i] != '\r'
        invariant
            at <= i <= chars.len(),
            line_end(chars@, at as int) == line_end(chars@, i as int),
        decreases chars.len() - i,
    {
        i = i + 1;
    }
    i
}

fn find_char(chars: &Vec<char>, c: char, at: usize, to: usize) -> (r: usize)
    requires
        to <= chars.len(),
    ensures
        r == char_before(chars@, c, at as int, to as int),
        at <= to ==> at <= r <= to,
        at <= r,
{
    let mut i: usize = at;
    while i < to && chars[i] != c
        invariant
            to <= chars.len(),
            at <= to ==> at <= i <= to,
            at <= i,
            char_before(chars@, c, at as int, to as int) == char_before(chars@, c, i as int, to as int),
        decreases to - i,
    {
        i = i + 1;
    }
    i
}

fn begins_comment(chars: &Vec<char>, at: usize) -> (r: bool)
    ensures
        r == comment_at(chars@, at as int),
{
    chars.len() >= 2 && at < chars.len() - 1 && chars[at] == '/' && chars[at + 1] == '/'
}

fn find_value_end(chars: &Vec<char>, at: usize) -> (r: usize)
    requires
        at <= chars.len(),
    ensures
        r == value_end(chars@, at as int),
        at <= r <= chars.len(),
{
    let mut start: usize = at;
    loop
        invariant
            at <= start <= chars.len(),
            value_end(chars@, at as int) == value_end(chars@, start as int),
        decreases chars.len() - start,
    {
        let end = find_word_end(chars, start);
        let next = find_blank_end(chars, end);
        if next > end && next < chars.len() && !begins_comment(chars, next) {
            let word = find_word_end(chars, next);
            if word > next && find_char(chars, '=', next, word) == word {
                start = next;
                continue;
            }
        }
        return end;
    }
}

/// The token at `at`, if one begins there, and where the text goes on after it.
fn read_token(chars: &Vec<char>, at: usize) -> (r: (Option<Token>, usize))
    requires
        at < chars.len(),
        !is_space(chars@[at as int]),
    ensures
        r.0.deep_view() == token_at(chars@, at as int).0,
        r.1 == token_at(chars@, at as int).1,
        at < r.1 <= chars.len(),
{
    let line = find_line_end(chars, at);
    let word = find_word_end(chars, at);
    let passed: usize = if word > at {
        word
    } else {
        at + 1
    };
    if begins_comment(chars, at) {
        proof {
            line_end_bounds(chars@, at + 1);
        }
        return (None, line);
    }
    if chars[at] == '<' {
        let close = find_char(chars, '>', at + 1, line);
        return if close < line {
            (Some(Token::Group(text_of(chars, at + 1, close))), close + 1)
        } else {
            (None, at + 1)
        };
    }
    let mut import = chars_of("#inc");
    let mut tail = chars_of("lude");
    import.append(&mut tail);
    if word_at(chars, &import, at) {
        let open = find_blank_end(chars, at + import.len());
        if open < line && chars[open] == '"' {
            let close = find_char(chars, '"', open + 1, line);
            if close < line {
                return (Some(Token::Import(text_of(chars, open + 1, close))), close + 1);
            }
        }
        return (None, passed);
    }
    let define = chars_of("#define");
    if word_at(chars, &define, at) {
        let name = find_blank_end(chars, at + define.len());
        let name_end = find_word_end(chars, name);
        let value = find_blank_end(chars, name_end);
        let value_end = find_word_end(chars, value);
        if name < chars.len() && chars[name] == '$' && value_end > value && value > name_end {
            return (
                Some(
                    Token::Define {
                        variable: text_of(chars, name, name_end),
                        value: text_of(chars, value, value_end),
                    },
                ),
                value_end,
            );
        }
        return (None, passed);
    }
    let equals = find_char(chars, '=', at, word);
    if at < equals && equals < word && equals + 1 < word {
        let end = find_value_end(chars, equals + 1);
        return (
            Some(
                Token::Opcode {
                    name: text_of(chars, at, equals),
                    value: text_of(chars, equals + 1, end),
                },
            ),
            end,
        );
    }
    (None, passed)
}

/// The tokens of a text.
pub fn tokenize(text: &str) -> (r: Vec<Token>)
    ensures
        r.deep_view() == tokens_from(text@, 0),
{
    let chars = chars_of(text);
    let mut out: Vec<Token> = Vec::new();
    let mut at: usize = 0;
    assert(out.deep_view() + tokens_from(text@, 0) =~= tokens_from(text@, 0));
    while at < chars.len()
        invariant
            at <= chars.len(),
            chars@ == text@,
            out.deep_view() + tokens_from(text@, at as int) == tokens_from(text@, 0),
        decreases chars.len() - at,
    {
        if space(chars[at]) {
            at = at + 1;
            continue;
        }
        let ghost before = out.deep_view();
        let (token, next) = read_token(&chars, at);
        if let Some(token) = token {
            let ghost model = token.deep_view();
            out.push(token);
            assert(out.deep_view() =~= before.push(model));
            assert(before + (seq![model] + tokens_from(text@, next as int)) =~= out.deep_view()
                + tokens_from(text@, next as int));
        }
        at = next;
    }
    assert(out.deep_view() + Seq::empty() =~= out.deep_view());
    out
}

/// The characters from `at` to `end` belong to words: none of them is a space, ends a line or
/// begins a header.
pub open spec fn is_word(s: Seq<char>, at: int, end: int) -> bool {
    &&& 0 <= at < end <= s.len()
    &&& forall|k: int|
        at <= k < end ==> (#[trigger] s[k]) != ' ' && s[k] != '\t' && s[k] != '\n' && s[k] != '\r'
            && s[k] != '<'
}

/// The characters from `at` to `end` are spaces within a line.
pub open spec fn is_blank(s: Seq<char>, at: int, end: int) -> bool {
    &&& 0 <= at < end <= s.len()
    &&& forall|k: int| at <= k < end ==> (#[trigger] s[k]) == ' ' || s[k] == '\t'
}

/// A line ends at `at`.
pub open spec fn line_ends(s: Seq<char>, at: int) -> bool {
    at == s.len() || 0 <= at < s.len() && (s[at] == '\n' || s[at] == '\r')
}

/// The character does not occur from `at` to `end`.
pub open spec fn lacks(s: Seq<char>, c: char, at: int, end: int) -> bool {
    forall|k: int| at <= k < end ==> #[trigger] s[k] != c
}

proof fn word_is_found(s: Seq<char>, at: int, end: int)
    requires
        is_word(s, at, end),
        line_ends(s, end) || s[end] == ' ' || s[end] == '\t' || s[end] == '<',
    ensures
        word_end(s, at) == end,
    decreases end - at,
{
    assert(s[at] != ' ');
    if at + 1 < end {
        word_is_found(s, at + 1, end);
    } else {
        assert(word_end(s, end) == end);
    }
}

proof fn blank_is_found(s: Seq<char>, at: int, end: int)
    requires
        is_blank(s, at, end),
        end == s.len() || s[end] != ' ' && s[end] != '\t',
    ensures
        blank_end(s, at) == end,
    decreases end - at,
{
    assert(s[at] == ' ' || s[at] == '\t');
    if at + 1 < end {
        blank_is_found(s, at + 1, end);
    } else {
        assert(blank_end(s, end) == end);
    }
}

proof fn line_is_found(s: Seq<char>, at: int, end: int)
    requires
        0 <= at <= end <= s.len(),
        lacks(s, '\n', at, end),
        lacks(s, '\r', at, end),
        line_ends(s, end),
    ensures
        line_end(s, at) == end,
    decreases end - at,
{
    if at < end {
        assert(s[at] != '\n' && s[at] != '\r');
        line_is_found(s, at + 1, end);
    }
}

proof fn line_goes_on(s: Seq<char>, at: int, to: int)
    requires
        0 <= at <= to < s.len(),
        lacks(s, '\n', at, to + 1),
        lacks(s, '\r', at, to + 1),
    ensures
        line_end(s, at) > to,
        line_end(s, at) <= s.len(),
    decreases to - at,
{
    assert(s[at] != '\n' && s[at] != '\r');
    line_end_bounds(s, at + 1);
    if at < to {
        line_goes_on(s, at + 1, to);
    }
}

proof fn char_is_found(s: Seq<char>, c: char, at: int, to: int, end: int)
    requires
        0 <= at <= end <= to <= s.len(),
        lacks(s, c, at, end),
        end == to || s[end] == c,
    ensures
        char_before(s, c, at, to) == end,
    decreases end - at,
{
    if at < end {
        assert(s[at] != c);
        char_is_found(s, c, at + 1, to, end);
    }
}

/// A word in angle brackets on one line is a header.
pub proof fn headers_are_read(s: Seq<char>, at: int, close: int)
    requires
        0 <= at < close < s.len(),
        s[at] == '<',
        s[close] == '>',
        lacks(s, '>', at + 1, close),
        lacks(s, '\n', at, close),
        lacks(s, '\r', at, close),
    ensures
        token_at(s, at) == (
            Some(Token::<Seq<char>>::Group(s.subrange(at + 1, close))),
            close + 1,
        ),
{
    line_goes_on(s, at, close);
    char_is_found(s, '>', at + 1, line_end(s, at), close);
}

/// What follows two slashes on a line is passed over.
pub proof fn comments_are_passed_over(s: Seq<char>, at: int, end: int)
    requires
        0 <= at < s.len() - 1,
        s[at] == '/',
        s[at + 1] == '/',
        at <= end <= s.len(),
        lacks(s, '\n', at, end),
        lacks(s, '\r', at, end),
        line_ends(s, end),
    ensures
        token_at(s, at) == (None::<Token<Seq<char>>>, end),
{
    line_is_found(s, at, end);
}

proof fn opcode_begins(s: Seq<char>, at: int, equals: int, word: int)
    requires
        is_word(s, at, word),
        line_ends(s, word) || s[word] == ' ' || s[word] == '\t' || s[word] == '<',
        at < equals < word - 1,
        s[equals] == '=',
        lacks(s, '=', at, equals),
        s[at] != '#',
        !(s[at] == '/' && s[at + 1] == '/'),
    ensures
        token_at(s, at) == (
            Some(
                Token::Opcode {
                    name: s.subrange(at, equals),
                    value: s.subrange(equals + 1, value_end(s, equals + 1)),
                },
            ),
            value_end(s, equals + 1),
        ),
        word_end(s, equals + 1) == word,
{
    word_is_found(s, at, word);
    word_is_found(s, equals + 1, word);
    char_is_found(s, '=', at, word, equals);
    reveal_strlit("#inc");
    reveal_strlit("#define");
    assert("#inc"@[0] == '#');
    assert(import_word()[0] == '#');
    assert("#define"@[0] == '#');
    assert(s[at] != '<');
    if stands_at(s, import_word(), at) {
        assert(s.subrange(at, at + import_word().len())[0] == s[at]);
    }
    if stands_at(s, "#define"@, at) {
        assert(s.subrange(at, at + "#define"@.len())[0] == s[at]);
    }
}

/// A word with an equals sign in it is an opcode: what stands in front of the first equals sign
/// is its name, and the rest of the word its value, where the line ends with the word.
pub proof fn opcodes_are_read(s: Seq<char>, at: int, equals: int, word: int)
    requires
        is_word(s, at, word),
        line_ends(s, word),
        at < equals < word - 1,
        s[equals] == '=',
        lacks(s, '=', at, equals),
        s[at] != '#',
        !(s[at] == '/' && s[at + 1] == '/'),
    ensures
        token_at(s, at) == (
            Some(
                Token::Opcode {
                    name: s.subrange(at, equals),
                    value: s.subrange(equals + 1, word),
                },
            ),
            word,
        ),
{
    opcode_begins(s, at, equals, word);
    assert(blank_end(s, word) == word);
}

/// A value goes on over the next word of its line, and over the spaces in front of it, where the
/// word holds no equals sign and begins no comment.
pub proof fn values_hold_spaces(
    s: Seq<char>,
    at: int,
    equals: int,
    word: int,
    next: int,
    end: int,
)
    requires
        is_word(s, at, word),
        at < equals < word - 1,
        s[equals] == '=',
        lacks(s, '=', at, equals),
        s[at] != '#',
        !(s[at] == '/' && s[at + 1] == '/'),
        is_blank(s, word, next),
        is_word(s, next, end),
        lacks(s, '=', next, end),
        !(s[next] == '/' && next + 1 < s.len() && s[next + 1] == '/'),
        line_ends(s, end),
    ensures
        token_at(s, at) == (
            Some(
                Token::Opcode {
                    name: s.subrange(at, equals),
                    value: s.subrange(equals + 1, end),
                },
            ),
            end,
        ),
{
    assert(s[word] == ' ' || s[word] == '\t');
    assert(s[next] != ' ' && s[next] != '\t');
    opcode_begins(s, at, equals, word);
    blank_is_found(s, word, next);
    word_is_found(s, next, end);
    char_is_found(s, '=', next, end, end);
    assert(blank_end(s, end) == end);
    assert(value_end(s, next) == end);
}

/// A value ends in front of the next opcode of its line, of a comment, and of a header.
pub proof fn values_end_before_the_next_token(
    s: Seq<char>,
    at: int,
    equals: int,
    word: int,
    next: int,
    end: int,
)
    requires
        is_word(s, at, word),
        at < equals < word - 1,
        s[equals] == '=',
        lacks(s, '=', at, equals),
        s[at] != '#',
        !(s[at] == '/' && s[at + 1] == '/'),
        is_blank(s, word, next),
        ({
            ||| next < s.len() && s[next] == '<'
            ||| next + 1 < s.len() && s[next] == '/' && s[next + 1] == '/'
            ||| is_word(s, next, end) && !lacks(s, '=', next, end) && (line_ends(s, end) || s[end]
                == ' ' || s[end] == '\t' || s[end] == '<')
        }),
    ensures
        token_at(s, at) == (
            Some(
                Token::Opcode {
                    name: s.subrange(at, equals),
                    value: s.subrange(equals + 1, word),
                },
            ),
            word,
        ),
{
    assert(s[word] == ' ' || s[word] == '\t');
    opcode_begins(s, at, equals, word);
    if s[next] == '<' {
        blank_is_found(s, word, next);
    } else if s[next] == '/' && s[next + 1] == '/' && next + 1 < s.len() {
        blank_is_found(s, word, next);
    } else {
        assert(s[next] != ' ' && s[next] != '\t');
        blank_is_found(s, word, next);
        word_is_found(s, next, end);
        let k = choose|k: int| next <= k < end && #[trigger] s[k] == '=';
        first_char_is_before(s, '=', next, end, k);
    }
}

proof fn first_char_is_before(s: Seq<char>, c: char, at: int, to: int, k: int)
    requires
        0 <= at <= k < to <= s.len(),
        s[k] == c,
    ensures
        char_before(s, c, at, to) < to,
    decreases k - at,
{
    if at < k && s[at] != c {
        first_char_is_before(s, c, at + 1, to, k);
    }
}

/// `#define`, a variable that begins with `$` and a word define the variable.
pub proof fn definitions_are_read(
    s: Seq<char>,
    at: int,
    name: int,
    name_end: int,
    value: int,
    end: int,
)
    requires
        0 <= at,
        stands_at(s, "#define"@, at),
        at + 7 == name || is_blank(s, at + 7, name),
        is_word(s, name, name_end),
        s[name] == '$',
        is_blank(s, name_end, value),
        is_word(s, value, end),
        line_ends(s, end) || s[end] == ' ' || s[end] == '\t' || s[end] == '<',
    ensures
        token_at(s, at) == (
            Some(
                Token::Define {
                    variable: s.subrange(name, name_end),
                    value: s.subrange(value, end),
                },
            ),
            end,
        ),
{
    reveal_strlit("#inc");
    reveal_strlit("lude");
    reveal_strlit("#define");
    let word = "#define"@;
    assert(word[0] == '#' && word[1] == 'd');
    assert(s.subrange(at, at + 7)[0] == s[at]);
    assert(s.subrange(at, at + 7)[1] == s[at + 1]);
    assert("#inc"@[1] == 'i');
    assert(import_word()[1] == 'i');
    if stands_at(s, import_word(), at) {
        assert(s.subrange(at, at + import_word().len())[1] == s[at + 1]);
    }
    assert(s[name_end] == ' ' || s[name_end] == '\t');
    assert(s[value] != ' ' && s[value] != '\t');
    if at + 7 < name {
        blank_is_found(s, at + 7, name);
    } else {
        assert(blank_end(s, name) == name);
    }
    word_is_found(s, name, name_end);
    blank_is_found(s, name_end, value);
    word_is_found(s, value, end);
}

/// The word for imports and a path in quotes on the same line import the file at the path.
pub proof fn imports_are_read(s: Seq<char>, at: int, open: int, close: int)
    requires
        0 <= at,
        stands_at(s, import_word(), at),
        at + 8 == open || is_blank(s, at + 8, open),
        open < close < s.len(),
        s[open] == '"',
        s[close] == '"',
        lacks(s, '"', open + 1, close),
        lacks(s, '\n', at, close),
        lacks(s, '\r', at, close),
    ensures
        token_at(s, at) == (
            Some(Token::<Seq<char>>::Import(s.subrange(open + 1, close))),
            close + 1,
        ),
{
    reveal_strlit("#inc");
    reveal_strlit("lude");
    assert("#inc"@[0] == '#');
    assert(import_word()[0] == '#');
    assert(s.subrange(at, at + 8)[0] == s[at]);
    line_goes_on(s, at, close);
    if at + 8 < open {
        blank_is_found(s, at + 8, open);
    } else {
        assert(blank_end(s, open) == open);
    }
    char_is_found(s, '"', open + 1, line_end(s, at), close);
}

/// A file is read from token to token: spaces and line ends are passed over, and so is what is
/// no token.
pub proof fn tokens_come_one_by_one(s: Seq<char>, at: int)
    ensures
        at >= s.len() ==> tokens_from(s, at).len() == 0,
        0 <= at < s.len() && (s[at] == ' ' || s[at] == '\t' || s[at] == '\n' || s[at] == '\r')
            ==> tokens_from(s, at) == tokens_from(s, at + 1),
        0 <= at < s.len() && s[at] != ' ' && s[at] != '\t' && s[at] != '\n' && s[at] != '\r' && at
            < token_at(s, at).1 <= s.len() ==> ({
            let (token, next) = token_at(s, at);
            tokens_from(s, at) == (match token {
                Some(t) => seq![t] + tokens_from(s, next),
                None => tokens_from(s, next),
            })
        }),
{
}

} // verus!
