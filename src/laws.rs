//! Laws of the parser, stated over the models of `parse_line` and `parse`.
use crate::error::{ParseError, ParseErrorModel};
use crate::grammar::{is_label_char, valid_label};
use crate::parser::{
    before_comment, instruction_outcome, lemma_before_comment, line_outcome, line_tokens,
    outcomes, results_view, source_outcome, upper_of, words, words_acc,
};
use crate::stmt::{Stmt, StmtModel};
use crate::text::is_white;
use vstd::prelude::*;

verus! {

proof fn lemma_acc_of_word(s: Seq<char>)
    requires
        forall|j: int| 0 <= j < s.len() ==> !is_white(#[trigger] s[j]),
    ensures
        words_acc(s) == (Seq::<Seq<char>>::empty(), s),
    decreases s.len(),
{
    if s.len() > 0 {
        lemma_acc_of_word(s.drop_last());
        assert(s.drop_last().push(s.last()) =~= s);
    }
}

proof fn lemma_acc_of_blank(s: Seq<char>)
    requires
        forall|j: int| 0 <= j < s.len() ==> is_white(#[trigger] s[j]),
    ensures
        words_acc(s) == (Seq::<Seq<char>>::empty(), Seq::<char>::empty()),
    decreases s.len(),
{
    if s.len() > 0 {
        lemma_acc_of_blank(s.drop_last());
    }
}

/// A text without whitespace or `#` is one token.
proof fn lemma_one_token(s: Seq<char>)
    requires
        s.len() > 0,
        forall|j: int| 0 <= j < s.len() ==> !is_white(#[trigger] s[j]) && s[j] != '#',
    ensures
        line_tokens(s) == seq![s],
{
    lemma_before_comment(s, s.len() as int);
    assert(s.take(s.len() as int) =~= s);
    lemma_acc_of_word(s);
    assert(words(s) =~= seq![s]);
}

/// A line `L:` whose `L` is a valid label declares the label `L`.
pub proof fn law_valid_label_declaration(l: Seq<char>, line: usize)
    requires
        valid_label(l),
    ensures
        line_outcome(l.push(':'), line) == Ok::<Option<StmtModel>, ParseErrorModel>(
            Some(StmtModel::Label(l, line)),
        ),
{
    let s = l.push(':');
    assert forall|j: int| 0 <= j < s.len() implies !is_white(#[trigger] s[j]) && s[j] != '#' by {
        if j < l.len() {
            assert(is_label_char(l[j]));
        }
    }
    lemma_one_token(s);
    assert(s.drop_last() =~= l);
}

/// A line `L:` whose `L` is one token but no valid label is refused with
/// `LabelIsNotValid`.
pub proof fn law_invalid_label_declaration(l: Seq<char>, line: usize)
    requires
        !valid_label(l),
        forall|j: int| 0 <= j < l.len() ==> !is_white(#[trigger] l[j]) && l[j] != '#',
    ensures
        line_outcome(l.push(':'), line) == Err::<Option<StmtModel>, ParseErrorModel>(
            ParseErrorModel::LabelIsNotValid(line),
        ),
{
    let s = l.push(':');
    assert forall|j: int| 0 <= j < s.len() implies !is_white(#[trigger] s[j]) && s[j] != '#' by {
        if j < l.len() {
            assert(s[j] == l[j]);
        }
    }
    lemma_one_token(s);
    assert(s.drop_last() =~= l);
}

/// A line with more than two tokens is refused with `UnsupportedSyntax`,
/// whatever its first token is.
pub proof fn law_too_many_tokens(s: Seq<char>, line: usize)
    requires
        line_tokens(s).len() > 2,
    ensures
        line_outcome(s, line) == Err::<Option<StmtModel>, ParseErrorModel>(
            ParseErrorModel::UnsupportedSyntax(line),
        ),
{
}

/// A blank line, or one that holds only whitespace before a comment, gives
/// nothing, and adds no result to those of the lines before it.
pub proof fn law_blank_line_gives_nothing(ls: Seq<Seq<char>>, b: Seq<char>, h: int)
    requires
        ls.len() < usize::MAX,
        0 <= h <= b.len(),
        forall|j: int| 0 <= j < h ==> is_white(#[trigger] b[j]),
        h == b.len() || b[h] == '#',
    ensures
        line_outcome(b, ls.len() as usize) == Ok::<Option<StmtModel>, ParseErrorModel>(None),
        outcomes(ls.push(b), ls.len() + 1) == outcomes(ls, ls.len()),
{
    lemma_before_comment(b, h);
    lemma_acc_of_blank(b.take(h));
    assert(words(before_comment(b)) =~= Seq::<Seq<char>>::empty());
    let n = ls.len();
    let ext = ls.push(b);
    assert(ext[n as int] == b);
    assert forall|k: nat| k <= n implies outcomes(ext, k) == outcomes(ls, k) by {
        lemma_outcomes_agree(ls, ext, k);
    }
}

proof fn lemma_outcomes_agree(a: Seq<Seq<char>>, b: Seq<Seq<char>>, n: nat)
    requires
        n <= a.len(),
        n <= b.len(),
        forall|i: int| 0 <= i < n ==> a[i] == b[i],
    ensures
        outcomes(a, n) == outcomes(b, n),
    decreases n,
{
    if n > 0 {
        lemma_outcomes_agree(a, b, (n - 1) as nat);
        assert(a[n - 1] == b[n - 1]);
    }
}

proof fn lemma_comment_after_blank(a: Seq<char>, s: Seq<char>)
    requires
        forall|j: int| 0 <= j < a.len() ==> is_white(#[trigger] a[j]),
    ensures
        before_comment(a + s) == a + before_comment(s),
    decreases a.len(),
{
    if a.len() > 0 {
        assert((a + s).drop_first() =~= a.drop_first() + s);
        lemma_comment_after_blank(a.drop_first(), s);
        assert(a + before_comment(s) =~= seq![a[0]] + (a.drop_first() + before_comment(s)));
    } else {
        assert(a + s =~= s);
        assert(a + before_comment(s) =~= before_comment(s));
    }
}

proof fn lemma_comment_before_blank(s: Seq<char>, b: Seq<char>)
    requires
        forall|j: int| 0 <= j < b.len() ==> is_white(#[trigger] b[j]),
    ensures
        before_comment(s + b) == before_comment(s) || before_comment(s + b) == before_comment(s)
            + b,
    decreases s.len(),
{
    if s.len() == 0 {
        assert(s + b =~= b);
        lemma_before_comment(b, b.len() as int);
        assert(b.take(b.len() as int) =~= b);
        assert(before_comment(s) + b =~= b);
    } else if s[0] != '#' {
        assert((s + b).drop_first() =~= s.drop_first() + b);
        lemma_comment_before_blank(s.drop_first(), b);
        assert(seq![s[0]] + (before_comment(s.drop_first()) + b) =~= (seq![s[0]]
            + before_comment(s.drop_first())) + b);
    }
}

proof fn lemma_words_after_blank(a: Seq<char>, t: Seq<char>)
    requires
        forall|j: int| 0 <= j < a.len() ==> is_white(#[trigger] a[j]),
    ensures
        words_acc(a + t) == words_acc(t),
    decreases t.len(),
{
    if t.len() == 0 {
        assert(a + t =~= a);
        lemma_acc_of_blank(a);
    } else {
        assert((a + t).drop_last() =~= a + t.drop_last());
        lemma_words_after_blank(a, t.drop_last());
    }
}

proof fn lemma_words_before_blank(t: Seq<char>, b: Seq<char>)
    requires
        forall|j: int| 0 <= j < b.len() ==> is_white(#[trigger] b[j]),
    ensures
        words(t + b) == words(t),
        words_acc(t + b).1.len() == 0 || b.len() == 0,
    decreases b.len(),
{
    if b.len() == 0 {
        assert(t + b =~= t);
    } else {
        assert((t + b).drop_last() =~= t + b.drop_last());
        lemma_words_before_blank(t, b.drop_last());
    }
}

/// Whitespace around a line does not change its result, so a line gives
/// the same result trimmed or not.
pub proof fn law_surrounding_whitespace(a: Seq<char>, s: Seq<char>, b: Seq<char>, line: usize)
    requires
        forall|j: int| 0 <= j < a.len() ==> is_white(#[trigger] a[j]),
        forall|j: int| 0 <= j < b.len() ==> is_white(#[trigger] b[j]),
    ensures
        line_outcome(a + s + b, line) == line_outcome(s, line),
{
    assert(a + s + b =~= a + (s + b));
    lemma_comment_after_blank(a, s + b);
    lemma_comment_before_blank(s, b);
    let c = before_comment(s);
    lemma_words_after_blank(a, before_comment(s + b));
    if before_comment(s + b) == c + b {
        lemma_words_before_blank(c, b);
    }
    assert(line_tokens(a + s + b) == line_tokens(s));
}

/// The opcode is matched without regard to case: two lines with the same
/// argument whose opcodes upper-case alike give the same result.
pub proof fn law_opcode_case_insensitive(s1: Seq<char>, s2: Seq<char>, line: usize)
    requires
        1 <= line_tokens(s1).len() <= 2,
        line_tokens(s1).len() == line_tokens(s2).len(),
        line_tokens(s1)[0].last() != ':',
        line_tokens(s2)[0].last() != ':',
        upper_of(line_tokens(s1)[0]) == upper_of(line_tokens(s2)[0]),
        line_tokens(s1).len() == 2 ==> line_tokens(s1)[1] == line_tokens(s2)[1],
    ensures
        line_outcome(s1, line) == line_outcome(s2, line),
{
}

/// The first two letters and the length of each mnemonic.
proof fn lemma_mnemonic_letters()
    ensures
        "LOAD"@.len() == 4 && "LOAD"@[0] == 'L' && "LOAD"@[1] == 'O',
        "ADD"@.len() == 3 && "ADD"@[0] == 'A' && "ADD"@[1] == 'D',
        "SUB"@.len() == 3 && "SUB"@[0] == 'S' && "SUB"@[1] == 'U',
        "MUL"@.len() == 3 && "MUL"@[0] == 'M' && "MUL"@[1] == 'U',
        "DIV"@.len() == 3 && "DIV"@[0] == 'D' && "DIV"@[1] == 'I',
        "WRITE"@.len() == 5 && "WRITE"@[0] == 'W' && "WRITE"@[1] == 'R',
        "OUTPUT"@.len() == 6 && "OUTPUT"@[0] == 'O' && "OUTPUT"@[1] == 'U',
        "JUMP"@.len() == 4 && "JUMP"@[0] == 'J' && "JUMP"@[1] == 'U',
        "JMP"@.len() == 3 && "JMP"@[0] == 'J' && "JMP"@[1] == 'M',
        "JZ"@.len() == 2 && "JZ"@[0] == 'J' && "JZ"@[1] == 'Z',
        "JZERO"@.len() == 5 && "JZERO"@[0] == 'J' && "JZERO"@[1] == 'Z',
        "JGZ"@.len() == 3 && "JGZ"@[0] == 'J' && "JGZ"@[1] == 'G',
        "JGTZ"@.len() == 4 && "JGTZ"@[0] == 'J' && "JGTZ"@[1] == 'G',
        "STORE"@.len() == 5 && "STORE"@[0] == 'S' && "STORE"@[1] == 'T',
        "INPUT"@.len() == 5 && "INPUT"@[0] == 'I' && "INPUT"@[1] == 'N',
        "READ"@.len() == 4 && "READ"@[0] == 'R' && "READ"@[1] == 'E',
        "HALT"@.len() == 4 && "HALT"@[0] == 'H' && "HALT"@[1] == 'A',
{
    reveal_strlit("LOAD");
    reveal_strlit("ADD");
    reveal_strlit("SUB");
    reveal_strlit("MUL");
    reveal_strlit("DIV");
    reveal_strlit("WRITE");
    reveal_strlit("OUTPUT");
    reveal_strlit("JUMP");
    reveal_strlit("JMP");
    reveal_strlit("JZ");
    reveal_strlit("JZERO");
    reveal_strlit("JGZ");
    reveal_strlit("JGTZ");
    reveal_strlit("STORE");
    reveal_strlit("INPUT");
    reveal_strlit("READ");
    reveal_strlit("HALT");
}

/// Synonymous opcodes behave alike, for every argument or none.
pub proof fn law_synonyms(tail: Option<Seq<char>>, line: usize)
    ensures
        instruction_outcome("JMP"@, tail, line) == instruction_outcome("JUMP"@, tail, line),
        instruction_outcome("JZ"@, tail, line) == instruction_outcome("JZERO"@, tail, line),
        instruction_outcome("JGZ"@, tail, line) == instruction_outcome("JGTZ"@, tail, line),
        instruction_outcome("WRITE"@, tail, line) == instruction_outcome("OUTPUT"@, tail, line),
        instruction_outcome("INPUT"@, tail, line) == instruction_outcome("READ"@, tail, line),
{
    lemma_mnemonic_letters();
}

/// Parsing depends on the source text alone: two results that both meet the
/// contract of `parse` on one text are the same.
pub proof fn law_parse_is_deterministic(
    source: Seq<char>,
    r1: Seq<Result<Stmt, ParseError>>,
    r2: Seq<Result<Stmt, ParseError>>,
)
    requires
        results_view(r1) == source_outcome(source),
        results_view(r2) == source_outcome(source),
    ensures
        results_view(r1) == results_view(r2),
{
}

} // verus!
