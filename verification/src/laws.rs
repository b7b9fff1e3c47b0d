//! What holds of every scan, proved from the grammar.

use vstd::prelude::*;
use crate::decimal::digit_char;
use crate::error::DiagnosticView;
use crate::lexical::digit;
use crate::lexical::digit_value;
use crate::lexical::end_token;
use crate::lexical::faults_from;
use crate::lexical::faults_of;
use crate::lexical::has_fraction;
use crate::lexical::keywords;
use crate::lexical::lemma_lexeme_end_bounds;
use crate::lexical::lemma_run_end_bounds;
use crate::lexical::lemma_run_end_maximal;
use crate::lexical::lexeme_end;
use crate::lexical::lexeme_faults;
use crate::lexical::lexeme_tokens;
use crate::lexical::line_at;
use crate::lexical::lookup;
use crate::lexical::newlines_before;
use crate::lexical::number_end;
use crate::lexical::number_value;
use crate::lexical::operator;
use crate::lexical::punctuation;
use crate::lexical::run_end;
use crate::lexical::tokens_from;
use crate::lexical::tokens_of;
use crate::lexical::word_type;
use crate::lexical::Run;
use crate::token::LiteralView;
use crate::token::TokenView;
use crate::token_type::TokenType;

verus! {

/// A text that is one punctuation character scans as two tokens, the
/// punctuation token, whose lexeme is that character, and the closing
/// token, both on line one; nothing is reported.
pub proof fn law_punctuation_alone(c: char)
    requires
        punctuation(c) is Some,
    ensures
        tokens_of(seq![c]) == seq![
            TokenView {
                token_type: punctuation(c)->0,
                lexeme: seq![c],
                literal: LiteralView::Absent,
                line: 1,
            },
            TokenView {
                token_type: TokenType::EOF,
                lexeme: Seq::empty(),
                literal: LiteralView::Absent,
                line: 1,
            },
        ],
        faults_of(seq![c]) == Seq::<DiagnosticView>::empty(),
{
    let s = seq![c];
    assert(s.subrange(0, 1) =~= s);
    assert(newlines_before(s, 0) == 0);
    assert(tokens_of(s) =~= lexeme_tokens(s, 0) + tokens_from(s, 1));
    assert(faults_of(s) =~= lexeme_faults(s, 0) + faults_from(s, 1));
}

/// The longest lexeme wins: each of `!`, `=`, `<` and `>` scans as one
/// token of one character when it stands alone, and as one token of two
/// characters when an equals sign follows it.
pub proof fn law_operator_takes_equals(c: char)
    requires
        operator(c, false) is Some,
    ensures
        tokens_of(seq![c]) == seq![
            TokenView {
                token_type: operator(c, false)->0,
                lexeme: seq![c],
                literal: LiteralView::Absent,
                line: 1,
            },
            TokenView {
                token_type: TokenType::EOF,
                lexeme: Seq::empty(),
                literal: LiteralView::Absent,
                line: 1,
            },
        ],
        tokens_of(seq![c, '=']) == seq![
            TokenView {
                token_type: operator(c, true)->0,
                lexeme: seq![c, '='],
                literal: LiteralView::Absent,
                line: 1,
            },
            TokenView {
                token_type: TokenType::EOF,
                lexeme: Seq::empty(),
                literal: LiteralView::Absent,
                line: 1,
            },
        ],
{
    let s = seq![c];
    assert(s.subrange(0, 1) =~= s);
    assert(newlines_before(s, 0) == 0);
    assert(tokens_of(s) =~= lexeme_tokens(s, 0) + tokens_from(s, 1));
    let t = seq![c, '='];
    assert(t.subrange(0, 2) =~= t);
    assert(newlines_before(t, 0) == 0);
    assert(newlines_before(t, 1) == 0);
    assert(tokens_of(t) =~= lexeme_tokens(t, 0) + tokens_from(t, 2));
}

/// Lines count from one, and the line goes up by exactly one over each
/// line end, wherever it stands, and stays over every other character.
pub proof fn law_line_steps(s: Seq<char>, at: int)
    requires
        0 <= at < s.len(),
    ensures
        line_at(s, 0) == 1,
        s[at] == '\n' ==> line_at(s, at + 1) == line_at(s, at) + 1,
        s[at] != '\n' ==> line_at(s, at + 1) == line_at(s, at),
{
}

/// The line of a position is one more than the number of line ends before
/// it.
pub proof fn law_line_counts_newlines(s: Seq<char>, at: int)
    requires
        0 <= at <= s.len(),
    ensures
        line_at(s, at) == 1 + s.subrange(0, at).filter(|c: char| c == '\n').len(),
    decreases at,
{
    reveal(Seq::filter);
    if at > 0 {
        law_line_counts_newlines(s, at - 1);
        assert(s.subrange(0, at).drop_last() =~= s.subrange(0, at - 1));
    }
}

/// The closing token lies on the line that is one more than the number of
/// line ends in the whole text, whether they stand between lexemes, behind
/// a comment or inside a string.
pub proof fn law_closing_line(s: Seq<char>)
    ensures
        tokens_of(s).last().line == 1 + s.filter(|c: char| c == '\n').len(),
{
    law_one_closing_token(s, 0);
    law_line_counts_newlines(s, s.len() as int);
    assert(s.subrange(0, s.len() as int) =~= s);
}

/// A later position lies on the same line or on a later one.
pub proof fn lemma_lines_ordered(s: Seq<char>, early: int, late: int)
    requires
        0 <= early <= late <= s.len(),
    ensures
        line_at(s, early) <= line_at(s, late),
    decreases late - early,
{
    if early < late {
        lemma_lines_ordered(s, early, late - 1);
    }
}

/// The tokens of the text from `from` on lie on lines between that of
/// `from` and the last, and no token lies on an earlier line than the one
/// before it.
pub proof fn law_token_lines(s: Seq<char>, from: int)
    requires
        0 <= from <= s.len(),
    ensures
        forall|i: int|
            0 <= i < tokens_from(s, from).len() ==> line_at(s, from) <= (#[trigger] tokens_from(
                s,
                from,
            )[i]).line <= line_at(s, s.len() as int),
        forall|i: int, j: int|
            0 <= i <= j < tokens_from(s, from).len() ==> (#[trigger] tokens_from(s, from)[i]).line
                <= (#[trigger] tokens_from(s, from)[j]).line,
    decreases s.len() - from,
{
    lemma_lines_ordered(s, from, s.len() as int);
    if from < s.len() {
        let end = lexeme_end(s, from);
        lemma_lexeme_end_bounds(s, from);
        law_token_lines(s, end);
        lemma_lines_ordered(s, from, end);
    }
}

/// A reserved word never names a punctuation mark, a literal or the end of
/// the text.
pub proof fn lemma_word_types(word: Seq<char>)
    ensures
        word_type(word) != TokenType::EOF,
        word_type(word) != TokenType::STRING,
        word_type(word) != TokenType::NUMBER,
{
    let table = keywords();
    assert forall|upto: int| 0 <= upto <= table.len() implies (#[trigger] lookup(
        table,
        word,
        upto,
    ) matches Some(found) ==> found != TokenType::EOF && found != TokenType::STRING && found
        != TokenType::NUMBER) by {
        lemma_lookup_found(table, word, upto);
    }
}

/// What a search of the table finds is the category of an entry that
/// spells the word.
pub proof fn lemma_lookup_found(table: Seq<(Seq<char>, TokenType)>, word: Seq<char>, upto: int)
    requires
        0 <= upto <= table.len(),
    ensures
        lookup(table, word, upto) matches Some(found) ==> exists|i: int|
            0 <= i < upto && (#[trigger] table[i]).0 == word && table[i].1 == found,
        lookup(table, word, upto) is None ==> forall|i: int|
            0 <= i < upto ==> (#[trigger] table[i]).0 != word,
    decreases upto,
{
    if upto > 0 {
        lemma_lookup_found(table, word, upto - 1);
    }
}

/// A word is an identifier exactly when no reserved word is spelled like
/// the whole of it.
pub proof fn law_reserved_words_whole(word: Seq<char>)
    ensures
        word_type(word) == TokenType::IDENTIFIER <==> forall|i: int|
            0 <= i < keywords().len() ==> (#[trigger] keywords()[i]).0 != word,
{
    let table = keywords();
    lemma_lookup_found(table, word, table.len() as int);
}

/// Every scan ends with the closing token, and holds no other: exactly one
/// token is of the category `EOF`, the last.
pub proof fn law_one_closing_token(s: Seq<char>, from: int)
    requires
        0 <= from <= s.len(),
    ensures
        tokens_from(s, from).len() >= 1,
        tokens_from(s, from).last() == end_token(s),
        forall|i: int|
            0 <= i < tokens_from(s, from).len() - 1 ==> (#[trigger] tokens_from(
                s,
                from,
            )[i]).token_type != TokenType::EOF,
    decreases s.len() - from,
{
    if from < s.len() {
        let end = lexeme_end(s, from);
        lemma_lexeme_end_bounds(s, from);
        law_one_closing_token(s, end);
        lemma_word_types(s.subrange(from, end));
    }
}

/// A token carries a text exactly when it is a string, and a number
/// exactly when it is a number.
pub proof fn law_literals_fit(s: Seq<char>, from: int)
    requires
        0 <= from <= s.len(),
    ensures
        forall|i: int|
            0 <= i < tokens_from(s, from).len() ==> {
                let token = #[trigger] tokens_from(s, from)[i];
                &&& token.literal is Text <==> token.token_type == TokenType::STRING
                &&& token.literal is Number <==> token.token_type == TokenType::NUMBER
            },
    decreases s.len() - from,
{
    if from < s.len() {
        let end = lexeme_end(s, from);
        lemma_lexeme_end_bounds(s, from);
        law_literals_fit(s, end);
        lemma_word_types(s.subrange(from, end));
    }
}

/// The value of a number literal is well formed, and written out it is
/// the lexeme again: no digit is lost or changed.
pub proof fn law_number_reads_back(s: Seq<char>, start: int)
    requires
        0 <= start < s.len(),
        digit(s[start]),
    ensures
        number_value(s, start).wf(),
        number_value(s, start).spelling() == s.subrange(start, number_end(s, start)),
{
    let whole_end = run_end(s, start, Run::Digits);
    let end = number_end(s, start);
    lemma_run_end_bounds(s, start + 1, Run::Digits);
    lemma_run_end_maximal(s, start, Run::Digits);
    assert forall|at: int| start <= at < whole_end implies digit_char(digit_value(s[at]))
        == s[at] && digit_value(s[at]) < 10 by {}
    if has_fraction(s, whole_end) {
        lemma_run_end_bounds(s, whole_end + 2, Run::Digits);
        lemma_run_end_maximal(s, whole_end + 1, Run::Digits);
        assert forall|at: int| whole_end < at < end implies digit_char(digit_value(s[at]))
            == s[at] && digit_value(s[at]) < 10 by {}
    }
}

} // verus!
