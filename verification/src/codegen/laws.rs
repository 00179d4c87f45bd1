//! What holds of substitution for well-behaved input: where no value of
//! the configuration holds an opening brace, and the template uses double
//! braces for placeholders alone.
//!
//! There no placeholder is left behind, and the one pass of the engine
//! gives what replacing the tokens one after the other gives, each in a
//! scan of the whole text. Elsewhere the two differ: a turn reads again
//! what earlier turns put in, and the one pass does not.

use vstd::prelude::*;
use crate::codegen::substitute::{
    leading_token, lemma_leading_is, lemma_leading_stands, lemma_no_overlap,
    lemma_occurrence_chars, lemma_same_start, occurs_at, substitute,
};
use crate::codegen::tokens::{is_brace, lemma_placeholder_shaped, Token};
use crate::models::config::CliConfigView;

verus! {

/// Whether `text` holds no opening brace.
pub open spec fn opens_nothing(text: Seq<char>) -> bool {
    forall|i: int| 0 <= i < text.len() ==> #[trigger] text[i] != '{'
}

/// Whether no value of the configuration holds an opening brace.
pub open spec fn values_open_nothing(config: CliConfigView) -> bool {
    forall|token: Token| opens_nothing(#[trigger] token.value(config))
}

/// Whether a pair of opening braces stands in `text` at position `at`.
pub open spec fn opens_at(text: Seq<char>, at: int) -> bool {
    &&& 0 <= at
    &&& at + 1 < text.len()
    &&& text[at] == '{'
    &&& text[at + 1] == '{'
}

/// Whether the pair of opening braces at `open` is closed by the pair of
/// closing braces at `close`, with no brace in between.
pub open spec fn closes_at(text: Seq<char>, open: int, close: int) -> bool {
    &&& open + 2 <= close
    &&& close + 1 < text.len()
    &&& text[close] == '}'
    &&& text[close + 1] == '}'
    &&& forall|k: int| open + 2 <= k < close ==> !is_brace(#[trigger] text[k])
}

/// Whether the double braces of `text` are used for placeholders alone:
/// every pair of opening braces is closed by a pair of closing braces with
/// no brace in between. Single braces may stand anywhere.
pub open spec fn braces_paired(text: Seq<char>) -> bool {
    forall|at: int| #[trigger] opens_at(text, at) ==> exists|close: int| closes_at(text, at, close)
}

/// The leading token of `text`, if it is among the first `level` tokens.
spec fn leading_among(text: Seq<char>, level: int) -> Option<Token> {
    match leading_token(text) {
        Some(token) => if token.index() < level {
            Some(token)
        } else {
            None
        },
        None => None,
    }
}

/// What a template becomes in one pass in which the first `level` tokens
/// alone are replaced.
spec fn substitute_first(text: Seq<char>, config: CliConfigView, level: int) -> Seq<
    char,
>
    decreases text.len(),
    via substitute_first_decreases
{
    if text.len() == 0 {
        Seq::empty()
    } else {
        match leading_among(text, level) {
            Some(token) => token.value(config) + substitute_first(
                text.skip(token.placeholder().len() as int),
                config,
                level,
            ),
            None => seq![text[0]] + substitute_first(text.skip(1), config, level),
        }
    }
}

/// Reading goes on behind a placeholder, which is never empty.
#[via_fn]
proof fn substitute_first_decreases(text: Seq<char>, config: CliConfigView, level: int) {
    if text.len() != 0 {
        match leading_among(text, level) {
            Some(token) => {
                lemma_placeholder_shaped(token);
                lemma_leading_stands(text);
            },
            None => {},
        }
    }
}

/// With all tokens replaced the pass is the pass of the engine.
proof fn lemma_all_tokens(text: Seq<char>, config: CliConfigView)
    ensures
        substitute_first(text, config, 10) == substitute(text, config),
    decreases text.len(),
{
    if text.len() > 0 {
        lemma_leading_stands(text);
        match leading_token(text) {
            Some(token) => {
                lemma_placeholder_shaped(token);
                lemma_all_tokens(text.skip(token.placeholder().len() as int), config);
            },
            None => {
                lemma_all_tokens(text.skip(1), config);
            },
        }
    }
}

/// A stretch in which none of the first `level` tokens begins is copied
/// as it is.
proof fn lemma_copied(text: Seq<char>, run: int, config: CliConfigView, level: int)
    requires
        0 <= run <= text.len(),
        forall|j: int| 0 <= j < run ==> leading_among(#[trigger] text.skip(j), level) is None,
    ensures
        substitute_first(text, config, level) == text.take(run) + substitute_first(
            text.skip(run),
            config,
            level,
        ),
    decreases run,
{
    if run == 0 {
        assert(text.skip(0) =~= text);
        assert(text.take(0) + substitute_first(text, config, level) =~= substitute_first(
            text,
            config,
            level,
        ));
    } else {
        assert(text.skip(0) =~= text);
        let rest = text.skip(1);
        assert forall|j: int| 0 <= j < run - 1 implies leading_among(
            #[trigger] rest.skip(j),
            level,
        ) is None by {
            assert(rest.skip(j) =~= text.skip(j + 1));
        }
        lemma_copied(rest, run - 1, config, level);
        assert(rest.skip(run - 1) =~= text.skip(run));
        assert(seq![text[0]] + rest.take(run - 1) =~= text.take(run));
        let tail = substitute_first(text.skip(run), config, level);
        assert(seq![text[0]] + (rest.take(run - 1) + tail) =~= text.take(run) + tail);
    }
}

/// What a text becomes begins with an opening brace only where the text
/// does, if no value holds one.
proof fn lemma_first_is_brace(text: Seq<char>, config: CliConfigView, level: int)
    requires
        values_open_nothing(config),
        substitute_first(text, config, level).len() > 0,
        substitute_first(text, config, level)[0] == '{',
    ensures
        text.len() > 0,
        text[0] == '{',
{
    if text.len() > 0 {
        lemma_leading_stands(text);
        match leading_token(text) {
            Some(token) => {
                lemma_placeholder_shaped(token);
                lemma_occurrence_chars(text, token.placeholder(), 0, 0);
            },
            None => {},
        }
    }
}

/// No placeholder begins at a character that is not an opening brace
/// followed by another.
proof fn lemma_needs_two_braces(text: Seq<char>)
    requires
        text.len() < 2 || text[0] != '{' || text[1] != '{',
    ensures
        leading_token(text) is None,
{
    lemma_leading_stands(text);
    match leading_token(text) {
        Some(token) => {
            lemma_placeholder_shaped(token);
            lemma_occurrence_chars(text, token.placeholder(), 0, 0);
            lemma_occurrence_chars(text, token.placeholder(), 0, 1);
        },
        None => {},
    }
}

/// No placeholder stands at the start of what a text becomes, if none
/// stands at the start of the text itself.
proof fn lemma_none_at_start(text: Seq<char>, config: CliConfigView, level: int, token: Token)
    requires
        values_open_nothing(config),
        braces_paired(text),
        leading_token(text) is None,
    ensures
        !occurs_at(substitute_first(text, config, level), token.placeholder(), 0),
{
    let out = substitute_first(text, config, level);
    let p = token.placeholder();
    let n = p.len() as int;
    lemma_placeholder_shaped(token);
    if occurs_at(out, p, 0) {
        lemma_occurrence_chars(out, p, 0, 0);
        lemma_occurrence_chars(out, p, 0, 1);
        assert(text.len() > 0);
        let tail = substitute_first(text.skip(1), config, level);
        assert(out =~= seq![text[0]] + tail);
        assert(tail[0] == out[1]);
        lemma_first_is_brace(text.skip(1), config, level);
        assert(text.skip(1)[0] == text[1]);
        assert(opens_at(text, 0));
        let m = choose|close: int| closes_at(text, 0, close);
        assert(closes_at(text, 0, m));
        assert forall|j: int| 0 <= j < m + 2 implies leading_among(
            #[trigger] text.skip(j),
            level,
        ) is None by {
            if j == 0 {
                assert(text.skip(0) =~= text);
            } else {
                let rest = text.skip(j);
                if j == 1 {
                    assert(rest[1] == text[2]);
                    if m > 2 {
                        assert(!is_brace(text[2]));
                    }
                } else {
                    assert(rest[0] == text[j]);
                    if j < m {
                        assert(!is_brace(text[j]));
                    }
                }
                lemma_needs_two_braces(rest);
            }
        }
        lemma_copied(text, m + 2, config, level);
        let copied = text.take(m + 2);
        assert(forall|k: int| 0 <= k < m + 2 ==> out[k] == copied[k]);
        if n - 2 < m {
            lemma_occurrence_chars(out, p, 0, n - 2);
            assert(out[n - 2] == copied[n - 2]);
            assert(!is_brace(text[n - 2]));
            assert(false);
        }
        if n - 2 > m {
            lemma_occurrence_chars(out, p, 0, m);
            assert(out[m] == copied[m]);
            assert(!is_brace(p[m]));
            assert(false);
        }
        assert(n == m + 2);
        assert(text.subrange(0, n) =~= out.subrange(0, n));
        assert(occurs_at(text, p, 0));
        lemma_leading_is(text, token);
    }
}

/// What stands behind a position of a text with paired braces has paired
/// braces too.
proof fn lemma_braces_paired_behind(text: Seq<char>, from: int)
    requires
        braces_paired(text),
        0 <= from <= text.len(),
    ensures
        braces_paired(text.skip(from)),
{
    let rest = text.skip(from);
    assert forall|at: int| #[trigger] opens_at(rest, at) implies exists|close: int|
        closes_at(rest, at, close) by {
        let open = at + from;
        assert(opens_at(text, open));
        let m = choose|close: int| closes_at(text, open, close);
        assert forall|k: int| at + 2 <= k < m - from implies !is_brace(#[trigger] rest[k]) by {
            assert(!is_brace(text[k + from]));
        }
        assert(closes_at(rest, at, m - from));
    }
}

/// No placeholder is left behind: if no value holds an opening brace, and
/// the template uses double braces for placeholders alone, then what the
/// template becomes holds the placeholder of no token at any position.
pub proof fn lemma_no_placeholder_left(
    text: Seq<char>,
    config: CliConfigView,
    token: Token,
    at: int,
)
    requires
        values_open_nothing(config),
        braces_paired(text),
    ensures
        !occurs_at(substitute(text, config), token.placeholder(), at),
    decreases text.len(),
{
    let out = substitute(text, config);
    let p = token.placeholder();
    lemma_placeholder_shaped(token);
    if text.len() > 0 && occurs_at(out, p, at) {
        lemma_leading_stands(text);
        match leading_token(text) {
            Some(first) => {
                let q = first.placeholder();
                let value = first.value(config);
                lemma_placeholder_shaped(first);
                let rest = text.skip(q.len() as int);
                lemma_braces_paired_behind(text, q.len() as int);
                if at < value.len() {
                    lemma_occurrence_chars(out, p, at, 0);
                    assert(out[at] == value[at]);
                    assert(opens_nothing(value));
                    assert(false);
                } else {
                    let tail = substitute(rest, config);
                    assert(tail.subrange(at - value.len(), at - value.len() + p.len())
                        =~= out.subrange(at, at + p.len()));
                    lemma_no_placeholder_left(rest, config, token, at - value.len());
                }
            },
            None => {
                let rest = text.skip(1);
                lemma_braces_paired_behind(text, 1);
                if at == 0 {
                    lemma_none_at_start(text, config, 10, token);
                    lemma_all_tokens(text, config);
                } else {
                    let tail = substitute(rest, config);
                    assert(tail.subrange(at - 1, at - 1 + p.len()) =~= out.subrange(
                        at,
                        at + p.len(),
                    ));
                    lemma_no_placeholder_left(rest, config, token, at - 1);
                }
            },
        }
    }
}

/// `text` with every occurrence of `mark` replaced by `with`: the
/// occurrences are found from left to right, and the search goes on behind
/// each of them. An empty mark occurs nowhere.
pub open spec fn replace_all(text: Seq<char>, mark: Seq<char>, with: Seq<char>) -> Seq<char>
    decreases text.len(),
{
    if text.len() == 0 || mark.len() == 0 {
        text
    } else if occurs_at(text, mark, 0) {
        with + replace_all(text.skip(mark.len() as int), mark, with)
    } else {
        seq![text[0]] + replace_all(text.skip(1), mark, with)
    }
}

/// What a template becomes when the first `turns` tokens are replaced in
/// turn: each of them in a scan of the whole text as the turns before
/// left it.
pub open spec fn replace_in_turn(text: Seq<char>, config: CliConfigView, turns: int) -> Seq<char>
    decreases turns,
{
    if turns <= 0 {
        text
    } else {
        replace_all(
            replace_in_turn(text, config, turns - 1),
            Token::at(turns - 1).placeholder(),
            Token::at(turns - 1).value(config),
        )
    }
}

/// No placeholder begins inside another.
proof fn lemma_none_inside(text: Seq<char>, token: Token, j: int)
    requires
        occurs_at(text, token.placeholder(), 0),
        0 < j < token.placeholder().len(),
    ensures
        leading_token(text.skip(j)) is None,
{
    let rest = text.skip(j);
    lemma_leading_stands(rest);
    match leading_token(rest) {
        Some(other) => {
            let q = other.placeholder();
            assert(text.subrange(j, j + q.len()) =~= rest.subrange(0, q.len() as int));
            lemma_no_overlap(text, token, 0, other, j);
        },
        None => {},
    }
}

/// A placeholder that is not replaced is copied as a whole.
proof fn lemma_placeholder_copied(
    text: Seq<char>,
    token: Token,
    config: CliConfigView,
    level: int,
)
    requires
        leading_token(text) == Some(token),
        token.index() >= level,
    ensures
        substitute_first(text, config, level) == token.placeholder() + substitute_first(
            text.skip(token.placeholder().len() as int),
            config,
            level,
        ),
{
    let p = token.placeholder();
    lemma_leading_stands(text);
    lemma_placeholder_shaped(token);
    assert forall|j: int| 0 <= j < p.len() implies leading_among(
        #[trigger] text.skip(j),
        level,
    ) is None by {
        if j == 0 {
            assert(text.skip(0) =~= text);
        } else {
            lemma_none_inside(text, token, j);
        }
    }
    lemma_copied(text, p.len() as int, config, level);
    assert(text.take(p.len() as int) =~= p);
}

/// Where `mark` begins at none of the first positions of a text, these are
/// kept and the replacement goes on behind them.
proof fn lemma_replace_behind(
    head: Seq<char>,
    tail: Seq<char>,
    mark: Seq<char>,
    with: Seq<char>,
)
    requires
        mark.len() > 0,
        forall|j: int| 0 <= j < head.len() ==> !#[trigger] occurs_at(head + tail, mark, j),
    ensures
        replace_all(head + tail, mark, with) == head + replace_all(tail, mark, with),
    decreases head.len(),
{
    let text = head + tail;
    if head.len() == 0 {
        assert(text =~= tail);
        assert(head + replace_all(tail, mark, with) =~= replace_all(tail, mark, with));
    } else {
        assert(!occurs_at(text, mark, 0));
        let rest = head.skip(1);
        assert(text.skip(1) =~= rest + tail);
        assert forall|j: int| 0 <= j < rest.len() implies !#[trigger] occurs_at(
            rest + tail,
            mark,
            j,
        ) by {
            assert(!occurs_at(text, mark, j + 1));
            if j + mark.len() <= (rest + tail).len() {
                assert((rest + tail).subrange(j, j + mark.len()) =~= text.subrange(
                    j + 1,
                    j + 1 + mark.len(),
                ));
            }
        }
        lemma_replace_behind(rest, tail, mark, with);
        assert(text[0] == head[0]);
        assert(seq![head[0]] + (rest + replace_all(tail, mark, with)) =~= head + replace_all(
            tail,
            mark,
            with,
        ));
    }
}

/// One more turn is one more token in the pass: replacing the token at
/// `level` in what the pass for the tokens before it gave is the pass for
/// the tokens up to it.
proof fn lemma_one_more_turn(text: Seq<char>, config: CliConfigView, level: int)
    requires
        values_open_nothing(config),
        braces_paired(text),
        0 <= level < 10,
    ensures
        replace_all(
            substitute_first(text, config, level),
            Token::at(level).placeholder(),
            Token::at(level).value(config),
        ) == substitute_first(text, config, level + 1),
    decreases text.len(),
{
    let turn = Token::at(level);
    let mark = turn.placeholder();
    let with = turn.value(config);
    let now = substitute_first(text, config, level);
    lemma_placeholder_shaped(turn);
    assert(turn.index() == level);
    if text.len() > 0 {
        lemma_leading_stands(text);
        match leading_token(text) {
            Some(token) => {
                let p = token.placeholder();
                let value = token.value(config);
                let rest = text.skip(p.len() as int);
                lemma_placeholder_shaped(token);
                lemma_braces_paired_behind(text, p.len() as int);
                lemma_one_more_turn(rest, config, level);
                let tail = substitute_first(rest, config, level);
                if token.index() < level {
                    assert(opens_nothing(value));
                    assert forall|j: int| 0 <= j < value.len() implies !#[trigger] occurs_at(
                        value + tail,
                        mark,
                        j,
                    ) by {
                        if occurs_at(value + tail, mark, j) {
                            lemma_occurrence_chars(value + tail, mark, j, 0);
                            assert((value + tail)[j] == value[j]);
                        }
                    }
                    lemma_replace_behind(value, tail, mark, with);
                } else if token.index() == level {
                    assert(token == turn);
                    lemma_placeholder_copied(text, token, config, level);
                    assert((p + tail).subrange(0, p.len() as int) =~= p);
                    assert((p + tail).skip(p.len() as int) =~= tail);
                } else {
                    lemma_placeholder_copied(text, token, config, level);
                    lemma_placeholder_copied(text, token, config, level + 1);
                    assert((p + tail).subrange(0, p.len() as int) =~= p);
                    assert forall|j: int| 0 <= j < p.len() implies !#[trigger] occurs_at(
                        p + tail,
                        mark,
                        j,
                    ) by {
                        if occurs_at(p + tail, mark, j) {
                            if j == 0 {
                                lemma_same_start(p + tail, token, turn, 0);
                            } else {
                                lemma_no_overlap(p + tail, token, 0, turn, j);
                            }
                        }
                    }
                    lemma_replace_behind(p, tail, mark, with);
                }
            },
            None => {
                let rest = text.skip(1);
                lemma_braces_paired_behind(text, 1);
                lemma_one_more_turn(rest, config, level);
                let tail = substitute_first(rest, config, level);
                let head = seq![text[0]];
                lemma_none_at_start(text, config, level, turn);
                assert(now =~= head + tail);
                assert forall|j: int| 0 <= j < head.len() implies !#[trigger] occurs_at(
                    head + tail,
                    mark,
                    j,
                ) by {}
                lemma_replace_behind(head, tail, mark, with);
            },
        }
    }
}

/// As many turns as tokens in the pass give the same text.
proof fn lemma_turns_are_passes(text: Seq<char>, config: CliConfigView, level: int)
    requires
        values_open_nothing(config),
        braces_paired(text),
        0 <= level <= 10,
    ensures
        replace_in_turn(text, config, level) == substitute_first(text, config, level),
    decreases level,
{
    if level == 0 {
        assert forall|j: int| 0 <= j < text.len() implies leading_among(
            #[trigger] text.skip(j),
            0,
        ) is None by {
            match leading_token(text.skip(j)) {
                Some(token) => {},
                None => {},
            }
        }
        lemma_copied(text, text.len() as int, config, 0);
        assert(text.take(text.len() as int) =~= text);
        assert(text.skip(text.len() as int) =~= Seq::<char>::empty());
        assert(text + Seq::<char>::empty() =~= text);
    } else {
        lemma_turns_are_passes(text, config, level - 1);
        lemma_one_more_turn(text, config, level - 1);
    }
}

/// One pass is as good as ten turns: if no value holds an opening brace,
/// and the template uses double braces for placeholders alone, then
/// replacing the tokens one after the other in their order, each in a
/// scan of the whole text, gives what the engine gives in its one pass.
pub proof fn lemma_one_pass_is_all_turns(text: Seq<char>, config: CliConfigView)
    requires
        values_open_nothing(config),
        braces_paired(text),
    ensures
        replace_in_turn(text, config, 10) == substitute(text, config),
{
    lemma_turns_are_passes(text, config, 10);
    lemma_all_tokens(text, config);
}

} // verus!
