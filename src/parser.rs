//! Classifying statements: opcodes and their families, single lines, and
//! whole sources.
pub use crate::error::{InvalidArgument, ParseError, ParseErrorModel};
use crate::grammar::{
    is_valid_label, parse_register, parse_value, register_operand, valid_label, value_operand,
};
pub use crate::stmt::{Label, RegisterValue, Stmt, StmtModel, Value};
use crate::text::{chars_of, is_white, is_whitespace};
use vstd::prelude::*;
use vstd::string::{StrSliceExecFns, StringExecFns};

verus! {

/// What upper-casing a text gives, by the Unicode case mapping.
pub uninterp spec fn upper_of(s: Seq<char>) -> Seq<char>;

/// Relies on `str::to_uppercase`, whose result depends on the characters of
/// its argument alone.
#[verifier::external_body]
fn to_upper(s: &str) -> (r: String)
    ensures
        r@ == upper_of(s@),
{
    s.to_uppercase()
}

/// Opcodes whose argument is a general operand.
pub open spec fn is_value_opcode(op: Seq<char>) -> bool {
    op == "LOAD"@ || op == "ADD"@ || op == "SUB"@ || op == "MUL"@ || op == "DIV"@
        || op == "WRITE"@ || op == "OUTPUT"@
}

/// Opcodes whose argument is a label.
pub open spec fn is_label_opcode(op: Seq<char>) -> bool {
    op == "JUMP"@ || op == "JMP"@ || op == "JZ"@ || op == "JZERO"@ || op == "JGZ"@
        || op == "JGTZ"@
}

/// Opcodes whose argument is a register.
pub open spec fn is_register_opcode(op: Seq<char>) -> bool {
    op == "STORE"@ || op == "INPUT"@ || op == "READ"@
}

/// The statement that a value-family opcode makes of its operand.
pub open spec fn value_stmt(op: Seq<char>, v: Value, line: usize) -> StmtModel {
    if op == "LOAD"@ {
        StmtModel::Load(v, line)
    } else if op == "ADD"@ {
        StmtModel::Add(v, line)
    } else if op == "SUB"@ {
        StmtModel::Sub(v, line)
    } else if op == "MUL"@ {
        StmtModel::Mul(v, line)
    } else if op == "DIV"@ {
        StmtModel::Div(v, line)
    } else {
        StmtModel::Output(v, line)
    }
}

/// The statement that a label-family opcode makes of its target.
pub open spec fn jump_stmt(op: Seq<char>, target: Seq<char>, line: usize) -> StmtModel {
    if op == "JUMP"@ || op == "JMP"@ {
        StmtModel::Jump(target, line)
    } else if op == "JZ"@ || op == "JZERO"@ {
        StmtModel::JumpIfZero(target, line)
    } else {
        StmtModel::JumpGreaterThanZero(target, line)
    }
}

/// The statement that a register-family opcode makes of its operand.
pub open spec fn register_stmt(op: Seq<char>, r: RegisterValue, line: usize) -> StmtModel {
    if op == "STORE"@ {
        StmtModel::Store(r, line)
    } else {
        StmtModel::Input(r, line)
    }
}

/// A value-family instruction with its argument.
pub open spec fn value_outcome(op: Seq<char>, tail: Seq<char>, line: usize) -> Result<
    StmtModel,
    ParseErrorModel,
> {
    match value_operand(tail) {
        Ok(v) => Ok(value_stmt(op, v, line)),
        Err(k) => Err(ParseErrorModel::ArgumentIsNotValid(line, k)),
    }
}

/// A label-family instruction with its argument.
pub open spec fn label_outcome(op: Seq<char>, tail: Seq<char>, line: usize) -> Result<
    StmtModel,
    ParseErrorModel,
> {
    if valid_label(tail) {
        Ok(jump_stmt(op, tail, line))
    } else {
        Err(ParseErrorModel::LabelIsNotValid(line))
    }
}

/// A register-family instruction with its argument.
pub open spec fn register_outcome(op: Seq<char>, tail: Seq<char>, line: usize) -> Result<
    StmtModel,
    ParseErrorModel,
> {
    match register_operand(tail) {
        Ok(r) => Ok(register_stmt(op, r, line)),
        Err(k) => Err(ParseErrorModel::ArgumentIsNotValid(line, k)),
    }
}

/// An instruction, given its upper-cased opcode and its argument if any.
pub open spec fn instruction_outcome(op: Seq<char>, tail: Option<Seq<char>>, line: usize) -> Result<
    StmtModel,
    ParseErrorModel,
> {
    if is_value_opcode(op) {
        match tail {
            Some(t) => value_outcome(op, t, line),
            None => Err(ParseErrorModel::ArgumentIsRequired(line)),
        }
    } else if is_label_opcode(op) {
        match tail {
            Some(t) => label_outcome(op, t, line),
            None => Err(ParseErrorModel::ArgumentIsRequired(line)),
        }
    } else if is_register_opcode(op) {
        match tail {
            Some(t) => register_outcome(op, t, line),
            None => Err(ParseErrorModel::ArgumentIsRequired(line)),
        }
    } else if op == "HALT"@ {
        Ok(StmtModel::Halt(line))
    } else {
        Err(ParseErrorModel::UnsupportedOpcode(line, op))
    }
}

/// The model of a statement-or-error.
pub open spec fn stmt_result_view(r: Result<Stmt, ParseError>) -> Result<StmtModel, ParseErrorModel> {
    match r {
        Ok(s) => Ok(s@),
        Err(e) => Err(e@),
    }
}

/// The model of an optional text.
pub open spec fn opt_text_view(t: Option<&str>) -> Option<Seq<char>> {
    match t {
        Some(s) => Some(s@),
        None => None,
    }
}

/// Whether two texts hold the same characters.
fn same_text(a: &str, b: &str) -> (r: bool)
    ensures
        r == (a@ == b@),
{
    let n = a.unicode_len();
    if n != b.unicode_len() {
        return false;
    }
    let mut i: usize = 0;
    while i < n
        invariant
            n == a@.len(),
            n == b@.len(),
            i <= n,
            forall|j: int| 0 <= j < i ==> a@[j] == b@[j],
        decreases n - i,
    {
        if a.get_char(i) != b.get_char(i) {
            return false;
        }
        i = i + 1;
    }
    assert(a@ =~= b@);
    true
}

/// A value-family instruction: `opcode` is its upper-cased mnemonic.
pub fn parse_with_value(opcode: &str, tail: &str, line: usize) -> (r: Result<Stmt, ParseError>)
    requires
        is_value_opcode(opcode@),
    ensures
        stmt_result_view(r) == value_outcome(opcode@, tail@, line),
{
    let arg = match parse_value(tail, line) {
        Ok(v) => v,
        Err(e) => return Err(e),
    };
    if same_text(opcode, "LOAD") {
        Ok(Stmt::Load(arg, line))
    } else if same_text(opcode, "ADD") {
        Ok(Stmt::Add(arg, line))
    } else if same_text(opcode, "SUB") {
        Ok(Stmt::Sub(arg, line))
    } else if same_text(opcode, "MUL") {
        Ok(Stmt::Mul(arg, line))
    } else if same_text(opcode, "DIV") {
        Ok(Stmt::Div(arg, line))
    } else {
        Ok(Stmt::Output(arg, line))
    }
}

/// A label-family instruction: `opcode` is its upper-cased mnemonic.
pub fn parse_with_label(opcode: &str, tail: &str, line: usize) -> (r: Result<Stmt, ParseError>)
    requires
        is_label_opcode(opcode@),
    ensures
        stmt_result_view(r) == label_outcome(opcode@, tail@, line),
{
    if !is_valid_label(tail) {
        return Err(ParseError::LabelIsNotValid(line));
    }
    let label = Label::new(String::from_str(tail));
    if same_text(opcode, "JUMP") || same_text(opcode, "JMP") {
        Ok(Stmt::Jump(label, line))
    } else if same_text(opcode, "JZ") || same_text(opcode, "JZERO") {
        Ok(Stmt::JumpIfZero(label, line))
    } else {
        Ok(Stmt::JumpGreaterThanZero(label, line))
    }
}

/// A register-family instruction: `opcode` is its upper-cased mnemonic.
pub fn parse_with_register(opcode: &str, tail: &str, line: usize) -> (r: Result<Stmt, ParseError>)
    requires
        is_register_opcode(opcode@),
    ensures
        stmt_result_view(r) == register_outcome(opcode@, tail@, line),
{
    let arg = match parse_register(tail, line) {
        Ok(v) => v,
        Err(e) => return Err(e),
    };
    if same_text(opcode, "STORE") {
        Ok(Stmt::Store(arg, line))
    } else {
        Ok(Stmt::Input(arg, line))
    }
}

/// An instruction, given its upper-cased opcode and its argument if any.
pub fn parse_instruction(opcode: &str, tail: Option<&str>, line: usize) -> (r: Result<
    Stmt,
    ParseError,
>)
    ensures
        stmt_result_view(r) == instruction_outcome(opcode@, opt_text_view(tail), line),
{
    let is_value = same_text(opcode, "LOAD") || same_text(opcode, "ADD") || same_text(opcode, "SUB")
        || same_text(opcode, "MUL") || same_text(opcode, "DIV") || same_text(opcode, "WRITE")
        || same_text(opcode, "OUTPUT");
    let is_label = same_text(opcode, "JUMP") || same_text(opcode, "JMP") || same_text(opcode, "JZ")
        || same_text(opcode, "JZERO") || same_text(opcode, "JGZ") || same_text(opcode, "JGTZ");
    let is_register = same_text(opcode, "STORE") || same_text(opcode, "INPUT") || same_text(
        opcode,
        "READ",
    );
    if is_value {
        match tail {
            Some(t) => parse_with_value(opcode, t, line),
            None => Err(ParseError::ArgumentIsRequired(line)),
        }
    } else if is_label {
        match tail {
            Some(t) => parse_with_label(opcode, t, line),
            None => Err(ParseError::ArgumentIsRequired(line)),
        }
    } else if is_register {
        match tail {
            Some(t) => parse_with_register(opcode, t, line),
            None => Err(ParseError::ArgumentIsRequired(line)),
        }
    } else if same_text(opcode, "HALT") {
        Ok(Stmt::Halt(line))
    } else {
        Err(ParseError::UnsupportedOpcode(line, String::from_str(opcode)))
    }
}

/// The text before the first `#`; all of it if there is none.
pub open spec fn before_comment(s: Seq<char>) -> Seq<char>
    decreases s.len(),
{
    if s.len() == 0 || s[0] == '#' {
        Seq::empty()
    } else {
        seq![s[0]] + before_comment(s.drop_first())
    }
}

/// Splitting on runs of whitespace, read left to right: the words completed
/// so far, and the word still open.
pub open spec fn words_acc(s: Seq<char>) -> (Seq<Seq<char>>, Seq<char>)
    decreases s.len(),
{
    if s.len() == 0 {
        (Seq::empty(), Seq::empty())
    } else {
        let (done, open) = words_acc(s.drop_last());
        if !is_white(s.last()) {
            (done, open.push(s.last()))
        } else if open.len() > 0 {
            (done.push(open), Seq::empty())
        } else {
            (done, open)
        }
    }
}

/// The non-empty maximal runs of non-whitespace characters of `s`, in order.
pub open spec fn words(s: Seq<char>) -> Seq<Seq<char>> {
    let (done, open) = words_acc(s);
    if open.len() > 0 {
        done.push(open)
    } else {
        done
    }
}

/// The tokens of a line: the words of what precedes its comment.
pub open spec fn line_tokens(s: Seq<char>) -> Seq<Seq<char>> {
    words(before_comment(s))
}

/// What a line declares or instructs: nothing for a blank or comment-only
/// line, an error for more than two tokens, then a label declaration
/// (`name:`) or an instruction with its case-insensitive opcode.
pub open spec fn line_outcome(s: Seq<char>, line: usize) -> Result<Option<StmtModel>, ParseErrorModel> {
    let w = line_tokens(s);
    if w.len() > 2 {
        Err(ParseErrorModel::UnsupportedSyntax(line))
    } else if w.len() == 0 {
        Ok(None)
    } else if w[0].last() == ':' {
        if valid_label(w[0].drop_last()) {
            Ok(Some(StmtModel::Label(w[0].drop_last(), line)))
        } else {
            Err(ParseErrorModel::LabelIsNotValid(line))
        }
    } else {
        let tail = if w.len() == 2 {
            Some(w[1])
        } else {
            None
        };
        match instruction_outcome(upper_of(w[0]), tail, line) {
            Ok(st) => Ok(Some(st)),
            Err(e) => Err(e),
        }
    }
}

/// The model of the result of a line.
pub open spec fn line_result_view(r: Result<Option<Stmt>, ParseError>) -> Result<
    Option<StmtModel>,
    ParseErrorModel,
> {
    match r {
        Ok(Some(s)) => Ok(Some(s@)),
        Ok(None) => Ok(None),
        Err(e) => Err(e@),
    }
}

pub(crate) proof fn lemma_before_comment(s: Seq<char>, h: int)
    requires
        0 <= h <= s.len(),
        forall|j: int| 0 <= j < h ==> s[j] != '#',
        h == s.len() || s[h] == '#',
    ensures
        before_comment(s) == s.take(h),
    decreases h,
{
    if h == 0 {
        assert(before_comment(s) =~= s.take(0));
    } else {
        lemma_before_comment(s.drop_first(), h - 1);
        assert(s.take(h) =~= seq![s[0]] + s.drop_first().take(h - 1));
    }
}

proof fn lemma_words_nonempty(s: Seq<char>)
    ensures
        forall|k: int| 0 <= k < words(s).len() ==> #[trigger] words(s)[k].len() > 0,
    decreases s.len(),
{
    if s.len() > 0 {
        lemma_words_nonempty(s.drop_last());
        assert forall|k: int| 0 <= k < words_acc(s).0.len() implies #[trigger] words_acc(s).0[k].len()
            > 0 by {
            let (done, open) = words_acc(s.drop_last());
            if k < done.len() {
                assert(words(s.drop_last())[k] == done[k]);
            }
        }
    }
}

/// Relies on `String`'s `FromIterator<&char>`: the string of those characters.
#[verifier::external_body]
fn string_of(v: &Vec<char>) -> (r: String)
    ensures
        r@ == v@,
{
    v.iter().collect()
}

/// The tokens of a line given as characters.
fn tokens_of(cs: &Vec<char>) -> (r: Vec<Vec<char>>)
    ensures
        r@.len() == line_tokens(cs@).len(),
        forall|k: int| 0 <= k < r@.len() ==> #[trigger] r@[k]@ == line_tokens(cs@)[k],
{
    let mut h: usize = 0;
    while h < cs.len() && cs[h] != '#'
        invariant
            h <= cs@.len(),
            forall|j: int| 0 <= j < h ==> cs@[j] != '#',
        decreases cs@.len() - h,
    {
        h = h + 1;
    }
    proof {
        lemma_before_comment(cs@, h as int);
    }
    let mut done: Vec<Vec<char>> = Vec::new();
    let mut open: Vec<char> = Vec::new();
    let mut i: usize = 0;
    while i < h
        invariant
            i <= h <= cs@.len(),
            done@.len() == words_acc(cs@.take(i as int)).0.len(),
            forall|k: int|
                0 <= k < done@.len() ==> #[trigger] done@[k]@ == words_acc(cs@.take(i as int)).0[k],
            open@ == words_acc(cs@.take(i as int)).1,
        decreases h - i,
    {
        let c = cs[i];
        assert(cs@.take(i + 1).drop_last() =~= cs@.take(i as int));
        if !is_whitespace(c) {
            open.push(c);
        } else if open.len() > 0 {
            done.push(open);
            open = Vec::new();
        }
        i = i + 1;
    }
    if open.len() > 0 {
        done.push(open);
    }
    done
}

/// Classifies one line given as characters; `line` is its number.
fn classify_line(cs: &Vec<char>, line: usize) -> (r: Result<Option<Stmt>, ParseError>)
    ensures
        line_result_view(r) == line_outcome(cs@, line),
{
    let w = tokens_of(cs);
    proof {
        lemma_words_nonempty(before_comment(cs@));
    }
    if w.len() > 2 {
        return Err(ParseError::UnsupportedSyntax(line));
    }
    if w.len() == 0 {
        return Ok(None);
    }
    let head = string_of(&w[0]);
    let n = w[0].len();
    if w[0][n - 1] == ':' {
        let name = head.as_str().substring_char(0, n - 1);
        assert(name@ =~= w@[0]@.drop_last());
        if is_valid_label(name) {
            return Ok(Some(Stmt::Label(String::from_str(name), line)));
        } else {
            return Err(ParseError::LabelIsNotValid(line));
        }
    }
    let opcode = to_upper(head.as_str());
    let r = if w.len() == 2 {
        let tail = string_of(&w[1]);
        parse_instruction(opcode.as_str(), Some(tail.as_str()), line)
    } else {
        parse_instruction(opcode.as_str(), None, line)
    };
    match r {
        Ok(st) => Ok(Some(st)),
        Err(e) => Err(e),
    }
}

/// Classifies one line of source; `line` is its zero-based number. A blank or
/// comment-only line gives `Ok(None)`. Whitespace around the line is ignored,
/// so it may be passed trimmed or not.
pub fn parse_line(source: &str, line: usize) -> (r: Result<Option<Stmt>, ParseError>)
    ensures
        line_result_view(r) == line_outcome(source@, line),
{
    let cs = chars_of(source);
    classify_line(&cs, line)
}

/// Splitting on `'\n'`, read left to right: the lines completed so far, and
/// the line still open.
pub open spec fn lines_acc(s: Seq<char>) -> (Seq<Seq<char>>, Seq<char>)
    decreases s.len(),
{
    if s.len() == 0 {
        (Seq::empty(), Seq::empty())
    } else {
        let (done, open) = lines_acc(s.drop_last());
        if s.last() == '\n' {
            (done.push(open), Seq::empty())
        } else {
            (done, open.push(s.last()))
        }
    }
}

/// The lines of a source: the texts between `'\n'`s, without a final empty
/// line after a trailing `'\n'`. A `'\r'` before the `'\n'` stays in the line,
/// where it counts as whitespace.
pub open spec fn source_lines(s: Seq<char>) -> Seq<Seq<char>> {
    let (done, open) = lines_acc(s);
    if open.len() > 0 {
        done.push(open)
    } else {
        done
    }
}

/// The results of the first `n` lines of `ls`, numbered from zero, leaving
/// out the lines that give nothing.
pub open spec fn outcomes(ls: Seq<Seq<char>>, n: nat) -> Seq<Result<StmtModel, ParseErrorModel>>
    decreases n,
{
    if n == 0 {
        Seq::empty()
    } else {
        let before = outcomes(ls, (n - 1) as nat);
        match line_outcome(ls[n - 1], (n - 1) as usize) {
            Ok(Some(st)) => before.push(Ok(st)),
            Ok(None) => before,
            Err(e) => before.push(Err(e)),
        }
    }
}

/// The results of a whole source, in line order.
pub open spec fn source_outcome(s: Seq<char>) -> Seq<Result<StmtModel, ParseErrorModel>> {
    outcomes(source_lines(s), source_lines(s).len())
}

/// The models of a sequence of results.
pub open spec fn results_view(v: Seq<Result<Stmt, ParseError>>) -> Seq<
    Result<StmtModel, ParseErrorModel>,
> {
    v.map_values(|r: Result<Stmt, ParseError>| stmt_result_view(r))
}

/// Classifies `cur` as line `k` and records its result, if any.
fn record_line(out: &mut Vec<Result<Stmt, ParseError>>, cur: &Vec<char>, k: usize)
    ensures
        results_view(final(out)@) == match line_outcome(cur@, k) {
            Ok(Some(st)) => results_view(old(out)@).push(Ok(st)),
            Ok(None) => results_view(old(out)@),
            Err(e) => results_view(old(out)@).push(Err(e)),
        },
{
    match classify_line(cur, k) {
        Ok(Some(st)) => {
            out.push(Ok(st));
            assert(results_view(out@) =~= results_view(old(out)@).push(Ok(st@)));
        },
        Ok(None) => {},
        Err(e) => {
            out.push(Err(e));
            assert(results_view(out@) =~= results_view(old(out)@).push(Err(e@)));
        },
    }
}

/// Classifies every line of `source`, in order, numbering lines from zero;
/// blank and comment-only lines give no result. A caller may stop at the
/// first error or go through all of them.
pub fn parse(source: &str) -> (r: Vec<Result<Stmt, ParseError>>)
    ensures
        results_view(r@) == source_outcome(source@),
{
    let cs = chars_of(source);
    let mut out: Vec<Result<Stmt, ParseError>> = Vec::new();
    let mut cur: Vec<char> = Vec::new();
    let mut k: usize = 0;
    let mut i: usize = 0;
    assert(results_view(out@) =~= outcomes(Seq::empty(), 0));
    while i < cs.len()
        invariant
            i <= cs@.len(),
            cs@ == source@,
            k <= i,
            k == lines_acc(cs@.take(i as int)).0.len(),
            cur@ == lines_acc(cs@.take(i as int)).1,
            results_view(out@) == outcomes(lines_acc(cs@.take(i as int)).0, k as nat),
        decreases cs@.len() - i,
    {
        let c = cs[i];
        let ghost before = lines_acc(cs@.take(i as int));
        assert(cs@.take(i + 1).drop_last() =~= cs@.take(i as int));
        if c == '\n' {
            record_line(&mut out, &cur, k);
            proof {
                assert(before.0.take(k as int) =~= before.0.push(cur@).take(k as int));
                lemma_outcomes_prefix(before.0, before.0.push(cur@), k as nat);
            }
            k = k + 1;
            cur = Vec::new();
        } else {
            cur.push(c);
        }
        i = i + 1;
    }
    assert(cs@.take(i as int) =~= cs@);
    if cur.len() > 0 {
        let ghost done = lines_acc(cs@).0;
        record_line(&mut out, &cur, k);
        proof {
            assert(done.take(k as int) =~= done.push(cur@).take(k as int));
            lemma_outcomes_prefix(done, done.push(cur@), k as nat);
        }
    }
    out
}

/// The results of the first `n` lines depend on those lines alone.
proof fn lemma_outcomes_prefix(a: Seq<Seq<char>>, b: Seq<Seq<char>>, n: nat)
    requires
        n <= a.len(),
        n <= b.len(),
        a.take(n as int) == b.take(n as int),
    ensures
        outcomes(a, n) == outcomes(b, n),
    decreases n,
{
    if n > 0 {
        assert(a.take(n - 1) =~= a.take(n as int).take(n - 1));
        assert(b.take(n - 1) =~= b.take(n as int).take(n - 1));
        assert(a[n - 1] == a.take(n as int)[n - 1]);
        assert(b[n - 1] == b.take(n as int)[n - 1]);
        lemma_outcomes_prefix(a, b, (n - 1) as nat);
    }
}

} // verus!
