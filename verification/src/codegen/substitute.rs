//! Placeholder substitution: one pass over a template, from left to right,
//! in which every recognised placeholder gives way to its value. What was
//! put in is not read again, and everything else is copied unchanged.

use vstd::prelude::*;
use crate::codegen::tokens::{
    is_brace, lemma_placeholder_shaped, lemma_placeholders_differ, Token,
};
use crate::models::config::{CliConfig, CliConfigView};
use crate::text::chars_of;

verus! {

/// Whether `mark` stands in `text` at position `at`.
pub open spec fn occurs_at(text: Seq<char>, mark: Seq<char>, at: int) -> bool {
    &&& 0 <= at
    &&& at + mark.len() <= text.len()
    &&& text.subrange(at, at + mark.len()) =~= mark
}

/// The token whose placeholder stands at the very start of `text`, if
/// there is one.
#[verifier::opaque]
pub open spec fn leading_token(text: Seq<char>) -> Option<Token> {
    if occurs_at(text, Token::Name.placeholder(), 0) {
        Some(Token::Name)
    } else if occurs_at(text, Token::CrateName.placeholder(), 0) {
        Some(Token::CrateName)
    } else if occurs_at(text, Token::ShortDescription.placeholder(), 0) {
        Some(Token::ShortDescription)
    } else if occurs_at(text, Token::LongDescription.placeholder(), 0) {
        Some(Token::LongDescription)
    } else if occurs_at(text, Token::Author.placeholder(), 0) {
        Some(Token::Author)
    } else if occurs_at(text, Token::Copyright.placeholder(), 0) {
        Some(Token::Copyright)
    } else if occurs_at(text, Token::License.placeholder(), 0) {
        Some(Token::License)
    } else if occurs_at(text, Token::Repository.placeholder(), 0) {
        Some(Token::Repository)
    } else if occurs_at(text, Token::Version.placeholder(), 0) {
        Some(Token::Version)
    } else if occurs_at(text, Token::SwCliUrl.placeholder(), 0) {
        Some(Token::SwCliUrl)
    } else {
        None
    }
}

/// The text that a template becomes under a configuration. The template
/// is read once from left to right: where a placeholder stands, its value
/// is put out and reading goes on behind the placeholder; elsewhere the
/// character is put out as it is.
pub open spec fn substitute(text: Seq<char>, config: CliConfigView) -> Seq<char>
    decreases text.len(),
    via substitute_decreases
{
    if text.len() == 0 {
        Seq::empty()
    } else {
        match leading_token(text) {
            Some(token) => token.value(config) + substitute(
                text.skip(token.placeholder().len() as int),
                config,
            ),
            None => seq![text[0]] + substitute(text.skip(1), config),
        }
    }
}

/// Reading goes on behind a placeholder, which is never empty.
#[via_fn]
proof fn substitute_decreases(text: Seq<char>, config: CliConfigView) {
    if text.len() != 0 {
        match leading_token(text) {
            Some(token) => {
                lemma_placeholder_shaped(token);
                lemma_leading_stands(text);
            },
            None => {},
        }
    }
}

/// The placeholder of the leading token stands at the start of the text.
pub proof fn lemma_leading_stands(text: Seq<char>)
    ensures
        match leading_token(text) {
            Some(token) => occurs_at(text, token.placeholder(), 0),
            None => forall|token: Token| !occurs_at(text, #[trigger] token.placeholder(), 0),
        },
{
    reveal(leading_token);
    if leading_token(text) is None {
        assert forall|token: Token| !occurs_at(text, #[trigger] token.placeholder(), 0) by {
            match token {
                Token::Name => {},
                Token::CrateName => {},
                Token::ShortDescription => {},
                Token::LongDescription => {},
                Token::Author => {},
                Token::Copyright => {},
                Token::License => {},
                Token::Repository => {},
                Token::Version => {},
                Token::SwCliUrl => {},
            }
        }
    }
}

/// The characters of an occurrence are those of the mark.
pub proof fn lemma_occurrence_chars(text: Seq<char>, mark: Seq<char>, at: int, k: int)
    requires
        occurs_at(text, mark, at),
        0 <= k < mark.len(),
    ensures
        text[at + k] == mark[k],
{
    assert(text.subrange(at, at + mark.len())[k] == text[at + k]);
}

/// Two placeholders that stand at the same position belong to the same
/// token: no placeholder is the beginning of another.
pub proof fn lemma_same_start(text: Seq<char>, a: Token, b: Token, at: int)
    requires
        occurs_at(text, a.placeholder(), at),
        occurs_at(text, b.placeholder(), at),
    ensures
        a == b,
{
    let p = a.placeholder();
    let q = b.placeholder();
    lemma_placeholder_shaped(a);
    lemma_placeholder_shaped(b);
    if p.len() < q.len() {
        lemma_occurrence_chars(text, p, at, p.len() - 2);
        lemma_occurrence_chars(text, q, at, p.len() - 2);
        assert(!is_brace(q[p.len() - 2]));
        assert(false);
    }
    if q.len() < p.len() {
        lemma_occurrence_chars(text, p, at, q.len() - 2);
        lemma_occurrence_chars(text, q, at, q.len() - 2);
        assert(!is_brace(p[q.len() - 2]));
        assert(false);
    }
    assert(p =~= q);
    if a != b {
        lemma_placeholders_differ(a, b);
    }
}

/// Placeholders never overlap: where one stands, no other begins before
/// its end.
pub proof fn lemma_no_overlap(text: Seq<char>, a: Token, i: int, b: Token, j: int)
    requires
        occurs_at(text, a.placeholder(), i),
        occurs_at(text, b.placeholder(), j),
        i < j,
    ensures
        i + a.placeholder().len() <= j,
{
    let p = a.placeholder();
    let q = b.placeholder();
    lemma_placeholder_shaped(a);
    lemma_placeholder_shaped(b);
    if j < i + p.len() {
        let k = j - i;
        lemma_occurrence_chars(text, q, j, 0);
        lemma_occurrence_chars(text, p, i, k);
        assert(p[k] == '{');
        if k >= 2 {
            if k < p.len() - 2 {
                assert(!is_brace(p[k]));
            }
            assert(false);
        }
        assert(k == 1);
        lemma_occurrence_chars(text, q, j, 1);
        lemma_occurrence_chars(text, p, i, 2);
        assert(false);
    }
}

/// The token whose placeholder stands at the start of the text is the
/// leading token.
pub proof fn lemma_leading_is(text: Seq<char>, token: Token)
    requires
        occurs_at(text, token.placeholder(), 0),
    ensures
        leading_token(text) == Some(token),
{
    lemma_leading_stands(text);
    match leading_token(text) {
        Some(other) => {
            lemma_same_start(text, other, token, 0);
        },
        None => {},
    }
}

/// A stretch in which no placeholder begins is copied as it is.
pub proof fn lemma_copied_run(text: Seq<char>, run: int, config: CliConfigView)
    requires
        0 <= run <= text.len(),
        forall|j: int| 0 <= j < run ==> leading_token(#[trigger] text.skip(j)) is None,
    ensures
        substitute(text, config) == text.take(run) + substitute(text.skip(run), config),
    decreases run,
{
    if run == 0 {
        assert(text.skip(0) =~= text);
        assert(text.take(0) + substitute(text, config) =~= substitute(text, config));
    } else {
        assert(text.skip(0) =~= text);
        let rest = text.skip(1);
        assert forall|j: int| 0 <= j < run - 1 implies leading_token(
            #[trigger] rest.skip(j),
        ) is None by {
            assert(rest.skip(j) =~= text.skip(j + 1));
        }
        lemma_copied_run(rest, run - 1, config);
        assert(rest.skip(run - 1) =~= text.skip(run));
        assert(seq![text[0]] + rest.take(run - 1) =~= text.take(run));
        assert(seq![text[0]] + (rest.take(run - 1) + substitute(text.skip(run), config))
            =~= text.take(run) + substitute(text.skip(run), config));
    }
}

/// A text in which no placeholder stands anywhere is left as it is: what
/// the engine does not recognise, it does not touch.
pub proof fn lemma_nothing_to_replace(text: Seq<char>, config: CliConfigView)
    requires
        forall|token: Token, at: int| !#[trigger] occurs_at(text, token.placeholder(), at),
    ensures
        substitute(text, config) == text,
{
    assert forall|j: int| 0 <= j < text.len() implies leading_token(
        #[trigger] text.skip(j),
    ) is None by {
        lemma_leading_stands(text.skip(j));
        match leading_token(text.skip(j)) {
            Some(token) => {
                let p = token.placeholder();
                assert(text.subrange(j, j + p.len()) =~= text.skip(j).subrange(0, p.len() as int));
                assert(occurs_at(text, p, j));
            },
            None => {},
        }
    }
    lemma_copied_run(text, text.len() as int, config);
    assert(text.take(text.len() as int) =~= text);
    assert(text.skip(text.len() as int) =~= Seq::<char>::empty());
    assert(text + Seq::<char>::empty() =~= text);
}

/// Reading a text that goes on with a placeholder begins as reading the
/// text alone does: the first step puts out the same `head` and moves on
/// by the same `step`, which ends before the placeholder.
proof fn lemma_same_first_step(
    before: Seq<char>,
    token: Token,
    after: Seq<char>,
    config: CliConfigView,
) -> (first: (int, Seq<char>))
    requires
        before.len() > 0,
    ensures
        0 < first.0 <= before.len(),
        substitute(before, config) == first.1 + substitute(before.skip(first.0), config),
        substitute(before + token.placeholder() + after, config) == first.1 + substitute(
            before.skip(first.0) + token.placeholder() + after,
            config,
        ),
{
    let p = token.placeholder();
    let text = before + p + after;
    lemma_placeholder_shaped(token);
    assert(text.subrange(before.len() as int, (before.len() + p.len()) as int) =~= p);
    assert(occurs_at(text, p, before.len() as int));
    lemma_leading_stands(text);
    lemma_leading_stands(before);
    match leading_token(text) {
        Some(first) => {
            let q = first.placeholder();
            lemma_placeholder_shaped(first);
            lemma_no_overlap(text, first, 0, token, before.len() as int);
            assert(before.subrange(0, q.len() as int) =~= text.subrange(0, q.len() as int));
            lemma_leading_is(before, first);
            assert(text.skip(q.len() as int) =~= before.skip(q.len() as int) + p + after);
            (q.len() as int, first.value(config))
        },
        None => {
            match leading_token(before) {
                Some(first) => {
                    let q = first.placeholder();
                    assert(text.subrange(0, q.len() as int) =~= before.subrange(
                        0,
                        q.len() as int,
                    ));
                    assert(occurs_at(text, q, 0));
                },
                None => {},
            }
            assert(text.skip(1) =~= before.skip(1) + p + after);
            assert(text[0] == before[0]);
            (1, seq![before[0]])
        },
    }
}

/// The value stands where the placeholder stood: a template with a
/// placeholder in it becomes what its part before the placeholder becomes,
/// then the value of the token, then what its part behind becomes.
pub proof fn lemma_value_in_place(
    before: Seq<char>,
    token: Token,
    after: Seq<char>,
    config: CliConfigView,
)
    ensures
        substitute(before + token.placeholder() + after, config) == substitute(before, config)
            + token.value(config) + substitute(after, config),
    decreases before.len(),
{
    let p = token.placeholder();
    let value = token.value(config);
    let behind = substitute(after, config);
    if before.len() == 0 {
        let text = before + p + after;
        lemma_placeholder_shaped(token);
        assert(text.subrange(0, p.len() as int) =~= p);
        lemma_leading_is(text, token);
        assert(text.skip(p.len() as int) =~= after);
        assert(substitute(before, config) + value + behind =~= value + behind);
    } else {
        let first = lemma_same_first_step(before, token, after, config);
        let rest = before.skip(first.0);
        lemma_value_in_place(rest, token, after, config);
        let middle = substitute(rest, config);
        assert(first.1 + (middle + value + behind) =~= (first.1 + middle) + value + behind);
    }
}

/// Whether `mark` stands in `text` at position `at`.
fn stands_at(text: &Vec<char>, at: usize, mark: &Vec<char>) -> (hit: bool)
    requires
        at <= text.len(),
    ensures
        hit == occurs_at(text@, mark@, at as int),
{
    let m = mark.len();
    if m > text.len() - at {
        return false;
    }
    let mut k: usize = 0;
    while k < m
        invariant
            k <= m,
            m == mark@.len(),
            at + m <= text.len(),
            forall|j: int| 0 <= j < k ==> text@[at + j] == #[trigger] mark@[j],
        decreases m - k,
    {
        if text[at + k] != mark[k] {
            proof {
                if occurs_at(text@, mark@, at as int) {
                    lemma_occurrence_chars(text@, mark@, at as int, k as int);
                }
            }
            return false;
        }
        k = k + 1;
    }
    assert(text@.subrange(at as int, at + m) =~= mark@);
    true
}

/// Whether `marks` holds the placeholders of the tokens, in their order.
spec fn marks_ready(marks: Seq<Vec<char>>) -> bool {
    &&& marks.len() == 10
    &&& marks[0]@ == Token::Name.placeholder()
    &&& marks[1]@ == Token::CrateName.placeholder()
    &&& marks[2]@ == Token::ShortDescription.placeholder()
    &&& marks[3]@ == Token::LongDescription.placeholder()
    &&& marks[4]@ == Token::Author.placeholder()
    &&& marks[5]@ == Token::Copyright.placeholder()
    &&& marks[6]@ == Token::License.placeholder()
    &&& marks[7]@ == Token::Repository.placeholder()
    &&& marks[8]@ == Token::Version.placeholder()
    &&& marks[9]@ == Token::SwCliUrl.placeholder()
}

/// The placeholders of the tokens as characters, in the order of the
/// tokens.
fn placeholder_marks() -> (marks: Vec<Vec<char>>)
    ensures
        marks_ready(marks@),
{
    let mut marks: Vec<Vec<char>> = Vec::new();
    marks.push(chars_of(Token::Name.placeholder_str()));
    marks.push(chars_of(Token::CrateName.placeholder_str()));
    marks.push(chars_of(Token::ShortDescription.placeholder_str()));
    marks.push(chars_of(Token::LongDescription.placeholder_str()));
    marks.push(chars_of(Token::Author.placeholder_str()));
    marks.push(chars_of(Token::Copyright.placeholder_str()));
    marks.push(chars_of(Token::License.placeholder_str()));
    marks.push(chars_of(Token::Repository.placeholder_str()));
    marks.push(chars_of(Token::Version.placeholder_str()));
    marks.push(chars_of(Token::SwCliUrl.placeholder_str()));
    marks
}

/// A mark stands at a position of a text where it stands at the start of
/// what begins there.
proof fn lemma_occurs_behind(text: Seq<char>, mark: Seq<char>, at: int)
    requires
        0 <= at <= text.len(),
    ensures
        occurs_at(text, mark, at) == occurs_at(text.skip(at), mark, 0),
{
    if at + mark.len() <= text.len() {
        assert(text.subrange(at, at + mark.len()) =~= text.skip(at).subrange(
            0,
            mark.len() as int,
        ));
    }
}

/// The token whose placeholder stands in `text` at position `at`, if there
/// is one.
fn token_at(text: &Vec<char>, at: usize, marks: &Vec<Vec<char>>) -> (found: Option<Token>)
    requires
        at < text.len(),
        marks_ready(marks@),
    ensures
        found == leading_token(text@.skip(at as int)),
{
    proof {
        reveal(leading_token);
        lemma_occurs_behind(text@, Token::Name.placeholder(), at as int);
        lemma_occurs_behind(text@, Token::CrateName.placeholder(), at as int);
        lemma_occurs_behind(text@, Token::ShortDescription.placeholder(), at as int);
        lemma_occurs_behind(text@, Token::LongDescription.placeholder(), at as int);
        lemma_occurs_behind(text@, Token::Author.placeholder(), at as int);
        lemma_occurs_behind(text@, Token::Copyright.placeholder(), at as int);
        lemma_occurs_behind(text@, Token::License.placeholder(), at as int);
        lemma_occurs_behind(text@, Token::Repository.placeholder(), at as int);
        lemma_occurs_behind(text@, Token::Version.placeholder(), at as int);
        lemma_occurs_behind(text@, Token::SwCliUrl.placeholder(), at as int);
    }
    if text[at] != '{' {
        proof {
            let rest = text@.skip(at as int);
            lemma_leading_stands(rest);
            match leading_token(rest) {
                Some(token) => {
                    lemma_placeholder_shaped(token);
                    lemma_occurrence_chars(rest, token.placeholder(), 0, 0);
                },
                None => {},
            }
        }
        None
    } else if stands_at(text, at, &marks[0]) {
        Some(Token::Name)
    } else if stands_at(text, at, &marks[1]) {
        Some(Token::CrateName)
    } else if stands_at(text, at, &marks[2]) {
        Some(Token::ShortDescription)
    } else if stands_at(text, at, &marks[3]) {
        Some(Token::LongDescription)
    } else if stands_at(text, at, &marks[4]) {
        Some(Token::Author)
    } else if stands_at(text, at, &marks[5]) {
        Some(Token::Copyright)
    } else if stands_at(text, at, &marks[6]) {
        Some(Token::License)
    } else if stands_at(text, at, &marks[7]) {
        Some(Token::Repository)
    } else if stands_at(text, at, &marks[8]) {
        Some(Token::Version)
    } else if stands_at(text, at, &marks[9]) {
        Some(Token::SwCliUrl)
    } else {
        None
    }
}

/// The text that replaces `token`, borrowed from the configuration;
/// `crate_name` is the project name as an identifier.
fn value_str<'a>(token: Token, config: &'a CliConfig, crate_name: &'a str) -> (value: &'a str)
    requires
        crate_name@ == config@.crate_name(),
    ensures
        value@ == token.value(config@),
{
    match token {
        Token::Name => config.name.as_str(),
        Token::CrateName => crate_name,
        Token::ShortDescription => config.short_description.as_str(),
        Token::LongDescription => config.long_description.as_str(),
        Token::Author => config.author.as_str(),
        Token::Copyright => config.copyright.as_str(),
        Token::License => config.license.as_str(),
        Token::Repository => config.repository.as_str(),
        Token::Version => config.version.as_str(),
        Token::SwCliUrl => config.sw_cli_url.as_str(),
    }
}

/// Renders a template under a configuration: every recognised placeholder
/// is replaced by its value, in one pass from left to right. A value that
/// holds the text of a placeholder is put out as it is, and a placeholder
/// that is not in the vocabulary stays in the text.
pub fn render(template: &str, config: &CliConfig) -> (out: String)
    ensures
        out@ == substitute(template@, config@),
{
    let text = chars_of(template);
    let n = text.len();
    let marks = placeholder_marks();
    let crate_name = config.crate_name();
    let mut out = String::new();
    let mut i: usize = 0;
    proof {
        assert(text@.skip(0) =~= text@);
        assert(out@ + substitute(text@.skip(0), config@) =~= substitute(template@, config@));
    }
    while i < n
        invariant
            text@ == template@,
            n == text.len(),
            i <= n,
            marks_ready(marks@),
            crate_name@ == config@.crate_name(),
            substitute(template@, config@) == out@ + substitute(text@.skip(i as int), config@),
        decreases n - i,
    {
        let ghost rest = text@.skip(i as int);
        let ghost before = out@;
        match token_at(&text, i, &marks) {
            Some(token) => {
                let width = token.placeholder_str().unicode_len();
                let value = value_str(token, config, crate_name.as_str());
                proof {
                    lemma_leading_stands(rest);
                    lemma_placeholder_shaped(token);
                    assert(rest.skip(width as int) =~= text@.skip(i + width));
                    assert(before + (value@ + substitute(rest.skip(width as int), config@)) =~= (
                    before + value@) + substitute(rest.skip(width as int), config@));
                }
                out.append(value);
                i = i + width;
            },
            None => {
                proof {
                    assert(rest.skip(1) =~= text@.skip(i + 1));
                    assert(before + (seq![rest[0]] + substitute(rest.skip(1), config@)) =~= before.push(
                        text@[i as int],
                    ) + substitute(rest.skip(1), config@));
                }
                out.push(text[i]);
                i = i + 1;
            },
        }
    }
    proof {
        assert(text@.skip(n as int) =~= Seq::<char>::empty());
        assert(out@ + Seq::<char>::empty() =~= out@);
    }
    out
}

} // verus!
