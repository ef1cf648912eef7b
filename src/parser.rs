//! The program parser: source text to an ordered list of labels, directives and
//! instructions, each with the line it starts on, or the line and column where no
//! item could be read.
use vstd::prelude::*;

use crate::register::{resolve_register, Register, RegisterError, RegisterErrorView};
use crate::text::{expand_tab_chars, expand_tabs, i32_value, is_digit, parse_i32, string_of};

verus! {

/// Where parsing stopped: 1-based line and column.
#[derive(Copy, Clone, Debug, PartialEq, Eq, Structural)]
pub struct ErrorLocation {
    pub line: u32,
    pub col: u32,
}

/// Why a source could not be parsed.
#[derive(Clone, Debug, PartialEq, Eq)]
pub enum ParseError {
    /// No label, directive or instruction can be read where the item starts.
    Syntax(ErrorLocation),
    /// A register operand, at the given place, names no register.
    Register(ErrorLocation, RegisterError),
}

pub ghost enum ParseErrorView {
    Syntax(ErrorLocation),
    Register(ErrorLocation, RegisterErrorView),
}

impl View for ParseError {
    type V = ParseErrorView;

    open spec fn view(&self) -> ParseErrorView {
        match self {
            ParseError::Syntax(loc) => ParseErrorView::Syntax(*loc),
            ParseError::Register(loc, e) => ParseErrorView::Register(*loc, e@),
        }
    }
}

/// Why a part of an item could not be read: it does not match the grammar, or a
/// register operand starting at the given position names no register.
pub ghost enum Failure {
    NoMatch,
    Register(int, RegisterErrorView),
}

/// One operand of an instruction or directive.
#[derive(Clone, Debug, PartialEq, Eq)]
pub enum MPArgument {
    /// `$` followed by a register index or name.
    Register(Register),
    /// A signed decimal integer.
    Number(i32),
    /// A symbolic name, such as a label to jump to.
    Label(String),
    /// A character literal such as `'a'` or `'\\n'`.
    Char(char),
    /// A string literal, with its escapes resolved.
    Text(String),
    /// `offset($reg)`: a memory operand; a bare `($reg)` has offset 0.
    Offset(i32, Register),
}

/// A mnemonic with its operands, each operand with the column it starts at.
#[derive(Clone, Debug, PartialEq, Eq)]
pub struct MPInstruction {
    pub name: String,
    pub arguments: Vec<(MPArgument, u32)>,
    pub col: u32,
}

/// An assembler directive: its name without the leading `.`, and its operands.
#[derive(Clone, Debug, PartialEq, Eq)]
pub struct MPDirective {
    pub name: String,
    pub arguments: Vec<(MPArgument, u32)>,
    pub col: u32,
}

#[derive(Clone, Debug, PartialEq, Eq)]
pub enum MPItem {
    Instruction(MPInstruction),
    Directive(MPDirective),
    Label(String),
}

/// A parsed program: its items in source order, each with its 1-based line.
#[derive(Clone, Debug, PartialEq, Eq)]
pub struct MPProgram {
    pub items: Vec<(MPItem, u32)>,
}

pub ghost enum ArgumentView {
    Register(Register),
    Number(i32),
    Label(Seq<char>),
    Char(char),
    Text(Seq<char>),
    Offset(i32, Register),
}

/// A name with its operands and its column; the shape of instructions and directives.
pub ghost struct OperationView {
    pub name: Seq<char>,
    pub arguments: Seq<(ArgumentView, u32)>,
    pub col: u32,
}

pub ghost enum ItemView {
    Instruction(OperationView),
    Directive(OperationView),
    Label(Seq<char>),
}

impl View for MPArgument {
    type V = ArgumentView;

    open spec fn view(&self) -> ArgumentView {
        match self {
            MPArgument::Register(r) => ArgumentView::Register(*r),
            MPArgument::Number(n) => ArgumentView::Number(*n),
            MPArgument::Label(s) => ArgumentView::Label(s@),
            MPArgument::Char(c) => ArgumentView::Char(*c),
            MPArgument::Text(t) => ArgumentView::Text(t@),
            MPArgument::Offset(n, r) => ArgumentView::Offset(*n, *r),
        }
    }
}

pub open spec fn arguments_view(v: Seq<(MPArgument, u32)>) -> Seq<(ArgumentView, u32)> {
    v.map_values(|a: (MPArgument, u32)| (a.0@, a.1))
}

impl View for MPInstruction {
    type V = OperationView;

    open spec fn view(&self) -> OperationView {
        OperationView { name: self.name@, arguments: arguments_view(self.arguments@), col: self.col }
    }
}

impl View for MPDirective {
    type V = OperationView;

    open spec fn view(&self) -> OperationView {
        OperationView { name: self.name@, arguments: arguments_view(self.arguments@), col: self.col }
    }
}

impl View for MPItem {
    type V = ItemView;

    open spec fn view(&self) -> ItemView {
        match self {
            MPItem::Instruction(i) => ItemView::Instruction(i@),
            MPItem::Directive(d) => ItemView::Directive(d@),
            MPItem::Label(s) => ItemView::Label(s@),
        }
    }
}

pub open spec fn items_view(v: Seq<(MPItem, u32)>) -> Seq<(ItemView, u32)> {
    v.map_values(|a: (MPItem, u32)| (a.0@, a.1))
}

impl View for MPProgram {
    type V = Seq<(ItemView, u32)>;

    open spec fn view(&self) -> Seq<(ItemView, u32)> {
        items_view(self.items@)
    }
}

/// The kinds of character run the grammar reads.
#[derive(Copy, Clone, Debug, PartialEq, Eq, Structural)]
pub enum CharClass {
    /// Spaces inside a line.
    Blank,
    /// Letters, digits, `_` and `.`: the rest of a name.
    Name,
    /// Letters and digits: the body of a register or number token.
    Alnum,
}

pub open spec fn is_alpha(c: char) -> bool {
    ('a' <= c && c <= 'z') || ('A' <= c && c <= 'Z')
}

pub open spec fn is_name_start(c: char) -> bool {
    is_alpha(c) || c == '_'
}

pub open spec fn in_class(c: char, k: CharClass) -> bool {
    match k {
        CharClass::Blank => c == ' ',
        CharClass::Name => is_name_start(c) || is_digit(c) || c == '.',
        CharClass::Alnum => is_alpha(c) || is_digit(c),
    }
}

/// The end of the run of class `k` that starts at `p`.
pub open spec fn run_end(s: Seq<char>, p: int, k: CharClass) -> int
    decreases s.len() - p,
{
    if 0 <= p < s.len() && in_class(s[p], k) {
        run_end(s, p + 1, k)
    } else {
        p
    }
}

/// Where the whitespace and `#` comments that start at `p` end; `in_comment` says
/// that `p` lies inside a comment.
pub open spec fn skip_space(s: Seq<char>, p: int, in_comment: bool) -> int
    decreases s.len() - p,
{
    if p < 0 || p >= s.len() {
        p
    } else if in_comment {
        skip_space(s, p + 1, s[p] != '\n')
    } else if s[p] == ' ' || s[p] == '\n' || s[p] == '\r' {
        skip_space(s, p + 1, false)
    } else if s[p] == '#' {
        skip_space(s, p + 1, true)
    } else {
        p
    }
}

/// The 1-based line and column of position `p`.
pub open spec fn line_col(s: Seq<char>, p: int) -> (int, int)
    decreases p,
{
    if p <= 0 {
        (1, 1)
    } else {
        let (l, c) = line_col(s, p - 1);
        if s[p - 1] == '\n' {
            (l + 1, 1)
        } else {
            (l, c + 1)
        }
    }
}

/// A name immediately followed by `:`.
pub open spec fn label_at(s: Seq<char>, p: int) -> Option<(Seq<char>, int)> {
    if 0 <= p < s.len() && is_name_start(s[p]) {
        let e = run_end(s, p + 1, CharClass::Name);
        if e < s.len() && s[e] == ':' {
            Some((s.subrange(p, e), e + 1))
        } else {
            None
        }
    } else {
        None
    }
}

pub open spec fn starts_argument(c: char) -> bool {
    c == '$' || c == '-' || c == '+' || is_digit(c) || is_name_start(c) || c == '(' || c == '\''
        || c == '"'
}

/// The character that `\` followed by `c` stands for in a literal.
pub open spec fn escaped(c: char) -> Option<char> {
    if c == 'n' {
        Some('\n')
    } else if c == 't' {
        Some('\t')
    } else if c == 'r' {
        Some('\r')
    } else if c == '0' {
        Some('\0')
    } else if c == '\\' || c == '\'' || c == '"' {
        Some(c)
    } else {
        None
    }
}

/// `$` and a register index or name at `a`.
pub open spec fn register_token(s: Seq<char>, a: int) -> Result<(Register, int), Failure> {
    if 0 <= a < s.len() && s[a] == '$' {
        let e = run_end(s, a + 1, CharClass::Alnum);
        if e > a + 1 {
            match resolve_register(s.subrange(a + 1, e)) {
                Ok(r) => Ok((r, e)),
                Err(err) => Err(Failure::Register(a, err)),
            }
        } else {
            Err(Failure::NoMatch)
        }
    } else {
        Err(Failure::NoMatch)
    }
}

/// `(`, a register token, `)` at `a`.
pub open spec fn paren_register(s: Seq<char>, a: int) -> Result<(Register, int), Failure> {
    if 0 <= a < s.len() && s[a] == '(' {
        match register_token(s, a + 1) {
            Ok((r, e)) => if e < s.len() && s[e] == ')' {
                Ok((r, e + 1))
            } else {
                Err(Failure::NoMatch)
            },
            Err(f) => Err(f),
        }
    } else {
        Err(Failure::NoMatch)
    }
}

/// A character literal whose opening quote is at `a`.
pub open spec fn char_literal(s: Seq<char>, a: int) -> Option<(char, int)> {
    if 0 <= a && a + 2 < s.len() && s[a + 1] != '\\' && s[a + 1] != '\'' && s[a + 1] != '\n'
        && s[a + 2] == '\'' {
        Some((s[a + 1], a + 3))
    } else if 0 <= a && a + 3 < s.len() && s[a + 1] == '\\' && escaped(s[a + 2]) is Some && s[a
        + 3] == '\'' {
        Some((escaped(s[a + 2])->Some_0, a + 4))
    } else {
        None
    }
}

/// The rest of a string literal from `p` on, after the characters `acc` already read:
/// its characters and the position after the closing quote.
pub open spec fn string_rest(s: Seq<char>, p: int, acc: Seq<char>) -> Option<(Seq<char>, int)>
    decreases s.len() - p,
{
    if p < 0 || p >= s.len() || s[p] == '\n' {
        None
    } else if s[p] == '"' {
        Some((acc, p + 1))
    } else if s[p] == '\\' {
        if p + 1 < s.len() && escaped(s[p + 1]) is Some {
            string_rest(s, p + 2, acc.push(escaped(s[p + 1])->Some_0))
        } else {
            None
        }
    } else {
        string_rest(s, p + 1, acc.push(s[p]))
    }
}

/// The operand at `a`, which starts with a character that begins one: a register,
/// a name, a character or string literal, a memory operand or a number.
pub open spec fn argument_at(s: Seq<char>, a: int) -> Result<(ArgumentView, int), Failure> {
    if 0 <= a < s.len() && s[a] == '$' {
        match register_token(s, a) {
            Ok((r, e)) => Ok((ArgumentView::Register(r), e)),
            Err(f) => Err(f),
        }
    } else if 0 <= a < s.len() && is_name_start(s[a]) {
        let e = run_end(s, a + 1, CharClass::Name);
        Ok((ArgumentView::Label(s.subrange(a, e)), e))
    } else if 0 <= a < s.len() && s[a] == '(' {
        match paren_register(s, a) {
            Ok((r, e)) => Ok((ArgumentView::Offset(0, r), e)),
            Err(f) => Err(f),
        }
    } else if 0 <= a < s.len() && s[a] == '\'' {
        match char_literal(s, a) {
            Some((c, e)) => Ok((ArgumentView::Char(c), e)),
            None => Err(Failure::NoMatch),
        }
    } else if 0 <= a < s.len() && s[a] == '"' {
        match string_rest(s, a + 1, Seq::empty()) {
            Some((t, e)) => Ok((ArgumentView::Text(t), e)),
            None => Err(Failure::NoMatch),
        }
    } else {
        let e = run_end(s, a + 1, CharClass::Alnum);
        match i32_value(s.subrange(a, e)) {
            Some(n) => if e < s.len() && s[e] == '(' {
                match paren_register(s, e) {
                    Ok((r, f)) => Ok((ArgumentView::Offset(n, r), f)),
                    Err(f) => Err(f),
                }
            } else {
                Ok((ArgumentView::Number(n), e))
            },
            None => Err(Failure::NoMatch),
        }
    }
}

/// The operand at `a` and those that follow it, each after whitespace and comments, a
/// comma, and whitespace and comments; each operand with its column. Ends with the
/// operands and the position after the last one.
pub open spec fn arguments_from(s: Seq<char>, a: int) -> Result<
    (Seq<(ArgumentView, u32)>, int),
    Failure,
>
    decreases s.len() - a,
{
    match argument_at(s, a) {
        Err(f) => Err(f),
        Ok((v, e)) => {
            let head = seq![(v, line_col(s, a).1 as u32)];
            let c = skip_space(s, e, false);
            if 0 <= c < s.len() && s[c] == ',' {
                let n = skip_space(s, c + 1, false);
                if 0 <= n < s.len() && starts_argument(s[n]) && a < n {
                    match arguments_from(s, n) {
                        Ok((rest, f)) => Ok((head + rest, f)),
                        Err(f) => Err(f),
                    }
                } else {
                    Err(Failure::NoMatch)
                }
            } else {
                Ok((head, e))
            }
        },
    }
}

/// The operand list after a mnemonic or directive name ending at `p`: empty when
/// what follows the blanks cannot begin an operand.
pub open spec fn argument_list(s: Seq<char>, p: int) -> Result<
    (Seq<(ArgumentView, u32)>, int),
    Failure,
> {
    let a = run_end(s, p, CharClass::Blank);
    if a < s.len() && starts_argument(s[a]) {
        arguments_from(s, a)
    } else {
        Ok((Seq::empty(), p))
    }
}

/// `.` and a name, then operands.
pub open spec fn directive_at(s: Seq<char>, q: int, col0: int) -> Result<(OperationView, int), Failure> {
    if 0 <= q && q + 1 < s.len() && s[q] == '.' && is_name_start(s[q + 1]) {
        let e = run_end(s, q + 2, CharClass::Name);
        match argument_list(s, e) {
            Ok((args, f)) => Ok(
                (OperationView { name: s.subrange(q + 1, e), arguments: args, col: col0 as u32 }, f),
            ),
            Err(f) => Err(f),
        }
    } else {
        Err(Failure::NoMatch)
    }
}

/// A mnemonic, then operands.
pub open spec fn instruction_at(s: Seq<char>, q: int, col0: int) -> Result<(OperationView, int), Failure> {
    if 0 <= q < s.len() && is_name_start(s[q]) {
        let e = run_end(s, q + 1, CharClass::Name);
        match argument_list(s, e) {
            Ok((args, f)) => Ok(
                (OperationView { name: s.subrange(q, e), arguments: args, col: col0 as u32 }, f),
            ),
            Err(f) => Err(f),
        }
    } else {
        Err(Failure::NoMatch)
    }
}

/// The item at `q`, in column `col0`: a label, else a directive, else an instruction.
pub open spec fn item_at(s: Seq<char>, q: int, col0: int) -> Result<(ItemView, int), Failure> {
    match label_at(s, q) {
        Some((name, e)) => Ok((ItemView::Label(name), e)),
        None => if 0 <= q < s.len() && s[q] == '.' {
            match directive_at(s, q, col0) {
                Ok((d, e)) => Ok((ItemView::Directive(d), e)),
                Err(f) => Err(f),
            }
        } else {
            match instruction_at(s, q, col0) {
                Ok((i, e)) => Ok((ItemView::Instruction(i), e)),
                Err(f) => Err(f),
            }
        },
    }
}

/// The items from position `p` on, each with its line; or, for the first item that
/// cannot be read, where it starts, or where its bad register operand starts and why.
pub open spec fn program_from(s: Seq<char>, p: int) -> Result<Seq<(ItemView, u32)>, ParseErrorView>
    decreases s.len() - p,
{
    let q = skip_space(s, p, false);
    let (line, col) = line_col(s, q);
    if q >= s.len() {
        Ok(Seq::empty())
    } else {
        match item_at(s, q, col) {
            Err(Failure::NoMatch) => Err(
                ParseErrorView::Syntax(ErrorLocation { line: line as u32, col: col as u32 }),
            ),
            Err(Failure::Register(a, err)) => Err(
                ParseErrorView::Register(
                    ErrorLocation { line: line_col(s, a).0 as u32, col: line_col(s, a).1 as u32 },
                    err,
                ),
            ),
            Ok((item, e)) => if p <= q < e <= s.len() {
                match program_from(s, e) {
                    Ok(rest) => Ok(seq![(item, line as u32)] + rest),
                    Err(err) => Err(err),
                }
            } else {
                Err(ParseErrorView::Syntax(ErrorLocation { line: line as u32, col: col as u32 }))
            },
        }
    }
}

/// The program that source text `t` holds, read after its tabs are expanded.
pub open spec fn parse_program(t: Seq<char>) -> Result<Seq<(ItemView, u32)>, ParseErrorView> {
    program_from(expand_tabs(t), 0)
}

/// `pre` in front of the operands of a parse result.
pub open spec fn prepend_arguments(
    pre: Seq<(ArgumentView, u32)>,
    r: Result<(Seq<(ArgumentView, u32)>, int), Failure>,
) -> Result<(Seq<(ArgumentView, u32)>, int), Failure> {
    match r {
        Ok((rest, f)) => Ok((pre + rest, f)),
        Err(f) => Err(f),
    }
}

/// `pre` in front of the items of a parse result.
pub open spec fn prepend_items(
    pre: Seq<(ItemView, u32)>,
    r: Result<Seq<(ItemView, u32)>, ParseErrorView>,
) -> Result<Seq<(ItemView, u32)>, ParseErrorView> {
    match r {
        Ok(rest) => Ok(pre + rest),
        Err(err) => Err(err),
    }
}

pub open spec fn program_result_view(r: Result<MPProgram, ParseError>) -> Result<
    Seq<(ItemView, u32)>,
    ParseErrorView,
> {
    match r {
        Ok(p) => Ok(p@),
        Err(err) => Err(err@),
    }
}

/// Why the executable parser stopped inside an item; positions are indices.
enum Stop {
    NoMatch,
    Register(usize, RegisterError),
}

impl View for Stop {
    type V = Failure;

    closed spec fn view(&self) -> Failure {
        match self {
            Stop::NoMatch => Failure::NoMatch,
            Stop::Register(a, e) => Failure::Register(*a as int, e@),
        }
    }
}

/// A register failure, if any, lies at a position in `lo..hi`.
spec fn fails_within<T>(r: Result<T, Stop>, lo: int, hi: int) -> bool {
    match r {
        Err(Stop::Register(a, _)) => lo <= a < hi,
        _ => true,
    }
}

/// A register parse result with its end as an integer and its failure as a view.
spec fn register_step_view(r: Result<(Register, usize), Stop>) -> Result<(Register, int), Failure> {
    match r {
        Ok((x, e)) => Ok((x, e as int)),
        Err(stop) => Err(stop@),
    }
}

spec fn argument_step_view(r: Result<(MPArgument, usize), Stop>) -> Result<(ArgumentView, int), Failure> {
    match r {
        Ok((x, e)) => Ok((x@, e as int)),
        Err(stop) => Err(stop@),
    }
}

spec fn arguments_step_view(r: Result<(Vec<(MPArgument, u32)>, usize), Stop>) -> Result<
    (Seq<(ArgumentView, u32)>, int),
    Failure,
> {
    match r {
        Ok((v, e)) => Ok((arguments_view(v@), e as int)),
        Err(stop) => Err(stop@),
    }
}

spec fn item_step_view(r: Result<(MPItem, usize), Stop>) -> Result<(ItemView, int), Failure> {
    match r {
        Ok((x, e)) => Ok((x@, e as int)),
        Err(stop) => Err(stop@),
    }
}

fn char_in_class(c: char, k: CharClass) -> (r: bool)
    ensures
        r == in_class(c, k),
{
    let alpha = ('a' <= c && c <= 'z') || ('A' <= c && c <= 'Z');
    let digit = '0' <= c && c <= '9';
    match k {
        CharClass::Blank => c == ' ',
        CharClass::Name => alpha || c == '_' || digit || c == '.',
        CharClass::Alnum => alpha || digit,
    }
}

fn name_start(c: char) -> (r: bool)
    ensures
        r == is_name_start(c),
{
    ('a' <= c && c <= 'z') || ('A' <= c && c <= 'Z') || c == '_'
}

fn argument_start(c: char) -> (r: bool)
    ensures
        r == starts_argument(c),
{
    c == '$' || c == '-' || c == '+' || ('0' <= c && c <= '9') || name_start(c) || c == '('
        || c == '\'' || c == '"'
}

/// A parse result with its end position as an integer.
pub open spec fn with_int_end<T>(r: Option<(T, usize)>) -> Option<(T, int)> {
    match r {
        Some((x, e)) => Some((x, e as int)),
        None => None,
    }
}

fn escape_of(c: char) -> (r: Option<char>)
    ensures
        r == escaped(c),
{
    if c == 'n' {
        Some('\n')
    } else if c == 't' {
        Some('\t')
    } else if c == 'r' {
        Some('\r')
    } else if c == '0' {
        Some('\0')
    } else if c == '\\' || c == '\'' || c == '"' {
        Some(c)
    } else {
        None
    }
}

fn skip_run(s: &[char], p: usize, k: CharClass) -> (r: usize)
    requires
        p <= s@.len(),
    ensures
        r == run_end(s@, p as int, k),
        p <= r <= s@.len(),
{
    let mut i = p;
    while i < s.len() && char_in_class(s[i], k)
        invariant
            p <= i <= s@.len(),
            run_end(s@, p as int, k) == run_end(s@, i as int, k),
        decreases s@.len() - i,
    {
        i = i + 1;
    }
    i
}

fn skip_space_at(s: &[char], p: usize) -> (r: usize)
    requires
        p <= s@.len(),
    ensures
        r == skip_space(s@, p as int, false),
        p <= r <= s@.len(),
{
    let mut i = p;
    let mut in_comment = false;
    while i < s.len()
        invariant
            p <= i <= s@.len(),
            skip_space(s@, p as int, false) == skip_space(s@, i as int, in_comment),
        decreases s@.len() - i,
    {
        let c = s[i];
        if in_comment {
            in_comment = c != '\n';
        } else if c == ' ' || c == '\n' || c == '\r' {
        } else if c == '#' {
            in_comment = true;
        } else {
            return i;
        }
        i = i + 1;
    }
    i
}

fn label_here(s: &[char], p: usize) -> (r: Option<(String, usize)>)
    requires
        p <= s@.len(),
    ensures
        label_at(s@, p as int) == match r {
            Some((name, e)) => Some((name@, e as int)),
            None => None::<(Seq<char>, int)>,
        },
        r is Some ==> p < r->Some_0.1 <= s@.len(),
{
    if p < s.len() && name_start(s[p]) {
        let e = skip_run(s, p + 1, CharClass::Name);
        if e < s.len() && s[e] == ':' {
            return Some((string_of(s, p, e), e + 1));
        }
    }
    None
}

fn register_here(s: &[char], a: usize) -> (r: Result<(Register, usize), Stop>)
    requires
        a <= s@.len(),
    ensures
        register_token(s@, a as int) == register_step_view(r),
        r is Ok ==> a < r->Ok_0.1 <= s@.len(),
        fails_within(r, a as int, s@.len() as int),
{
    if a < s.len() && s[a] == '$' {
        let e = skip_run(s, a + 1, CharClass::Alnum);
        if e > a + 1 {
            return match Register::resolve_chars(s, a + 1, e) {
                Ok(reg) => Ok((reg, e)),
                Err(err) => Err(Stop::Register(a, err)),
            };
        }
    }
    Err(Stop::NoMatch)
}

fn paren_register_here(s: &[char], a: usize) -> (r: Result<(Register, usize), Stop>)
    requires
        a <= s@.len(),
    ensures
        paren_register(s@, a as int) == register_step_view(r),
        r is Ok ==> a < r->Ok_0.1 <= s@.len(),
        fails_within(r, a as int, s@.len() as int),
{
    if a < s.len() && s[a] == '(' {
        match register_here(s, a + 1) {
            Ok((reg, e)) => {
                if e < s.len() && s[e] == ')' {
                    return Ok((reg, e + 1));
                }
            },
            Err(stop) => return Err(stop),
        }
    }
    Err(Stop::NoMatch)
}

fn char_literal_here(s: &[char], a: usize) -> (r: Option<(char, usize)>)
    requires
        a <= s@.len(),
    ensures
        char_literal(s@, a as int) == with_int_end(r),
        r is Some ==> a < r->Some_0.1 <= s@.len(),
{
    if s.len() - a > 2 && s[a + 1] != '\\' && s[a + 1] != '\'' && s[a + 1] != '\n' && s[a + 2]
        == '\'' {
        return Some((s[a + 1], a + 3));
    }
    if s.len() - a > 3 && s[a + 1] == '\\' && s[a + 3] == '\'' {
        if let Some(c) = escape_of(s[a + 2]) {
            return Some((c, a + 4));
        }
    }
    None
}

fn string_literal_here(s: &[char], p: usize) -> (r: Option<(String, usize)>)
    requires
        p <= s@.len(),
    ensures
        string_rest(s@, p as int, Seq::empty()) == match r {
            Some((t, e)) => Some((t@, e as int)),
            None => None::<(Seq<char>, int)>,
        },
        r is Some ==> p < r->Some_0.1 <= s@.len(),
{
    let mut acc = String::new();
    let mut i = p;
    while i < s.len()
        invariant
            p <= i <= s@.len(),
            string_rest(s@, p as int, Seq::empty()) == string_rest(s@, i as int, acc@),
        decreases s@.len() - i,
    {
        let c = s[i];
        if c == '\n' {
            return None;
        } else if c == '"' {
            return Some((acc, i + 1));
        } else if c == '\\' {
            if i + 1 < s.len() {
                if let Some(e) = escape_of(s[i + 1]) {
                    crate::text::push_char(&mut acc, e);
                    i = i + 2;
                } else {
                    return None;
                }
            } else {
                return None;
            }
        } else {
            crate::text::push_char(&mut acc, c);
            i = i + 1;
        }
    }
    None
}

fn argument_here(s: &[char], a: usize) -> (r: Result<(MPArgument, usize), Stop>)
    requires
        a < s@.len(),
        starts_argument(s@[a as int]),
    ensures
        argument_at(s@, a as int) == argument_step_view(r),
        r is Ok ==> a < r->Ok_0.1 <= s@.len(),
        fails_within(r, a as int, s@.len() as int),
{
    let c = s[a];
    if c == '$' {
        match register_here(s, a) {
            Ok((reg, e)) => Ok((MPArgument::Register(reg), e)),
            Err(stop) => Err(stop),
        }
    } else if name_start(c) {
        let e = skip_run(s, a + 1, CharClass::Name);
        Ok((MPArgument::Label(string_of(s, a, e)), e))
    } else if c == '(' {
        match paren_register_here(s, a) {
            Ok((reg, e)) => Ok((MPArgument::Offset(0, reg), e)),
            Err(stop) => Err(stop),
        }
    } else if c == '\'' {
        match char_literal_here(s, a) {
            Some((ch, e)) => Ok((MPArgument::Char(ch), e)),
            None => Err(Stop::NoMatch),
        }
    } else if c == '"' {
        match string_literal_here(s, a + 1) {
            Some((t, e)) => Ok((MPArgument::Text(t), e)),
            None => Err(Stop::NoMatch),
        }
    } else {
        let e = skip_run(s, a + 1, CharClass::Alnum);
        match parse_i32(s, a, e) {
            Some(n) => if e < s.len() && s[e] == '(' {
                match paren_register_here(s, e) {
                    Ok((reg, f)) => Ok((MPArgument::Offset(n, reg), f)),
                    Err(stop) => Err(stop),
                }
            } else {
                Ok((MPArgument::Number(n), e))
            },
            None => Err(Stop::NoMatch),
        }
    }
}

fn argument_list_here(s: &[char], p: usize, q: usize, col0: u32) -> (r: Result<
    (Vec<(MPArgument, u32)>, usize),
    Stop,
>)
    requires
        q <= p <= s@.len(),
        s@.len() <= u32::MAX,
        col0 as int == line_col(s@, q as int).1,
    ensures
        arguments_step_view(r) == argument_list(s@, p as int),
        r is Ok ==> p <= r->Ok_0.1 <= s@.len(),
        fails_within(r, p as int, s@.len() as int),
{
    let mut out: Vec<(MPArgument, u32)> = Vec::new();
    let mut a = skip_run(s, p, CharClass::Blank);
    if !(a < s.len() && argument_start(s[a])) {
        assert(arguments_view(out@) =~= Seq::empty());
        return Ok((out, p));
    }
    assert(arguments_view(out@) + arguments_from(s@, a as int)->Ok_0.0 =~= arguments_from(
        s@,
        a as int,
    )->Ok_0.0);
    loop
        invariant
            q <= p <= a < s@.len(),
            s@.len() <= u32::MAX,
            col0 as int == line_col(s@, q as int).1,
            starts_argument(s@[a as int]),
            argument_list(s@, p as int) == prepend_arguments(
                arguments_view(out@),
                arguments_from(s@, a as int),
            ),
        decreases s@.len() - a,
    {
        let ghost pre = arguments_view(out@);
        match argument_here(s, a) {
            Err(stop) => return Err(stop),
            Ok((v, e)) => {
                let col = column_at(s, q, col0, a);
                let ghost head = seq![(v@, col)];
                out.push((v, col));
                assert(arguments_view(out@) =~= pre + head);
                let c = skip_space_at(s, e);
                if c < s.len() && s[c] == ',' {
                    let n = skip_space_at(s, c + 1);
                    if n < s.len() && argument_start(s[n]) {
                        proof {
                            match arguments_from(s@, n as int) {
                                Ok((rest, f)) => {
                                    assert(pre + (head + rest) =~= (pre + head) + rest);
                                },
                                Err(_) => {},
                            }
                        }
                        a = n;
                    } else {
                        return Err(Stop::NoMatch);
                    }
                } else {
                    return Ok((out, e));
                }
            },
        }
    }
}

fn item_here(s: &[char], q: usize, col0: u32) -> (r: Result<(MPItem, usize), Stop>)
    requires
        q < s@.len(),
        s@.len() <= u32::MAX,
        col0 as int == line_col(s@, q as int).1,
    ensures
        item_at(s@, q as int, col0 as int) == item_step_view(r),
        r is Ok ==> q < r->Ok_0.1 <= s@.len(),
        fails_within(r, q as int, s@.len() as int),
{
    if let Some((name, e)) = label_here(s, q) {
        return Ok((MPItem::Label(name), e));
    }
    if s[q] == '.' {
        if q + 1 < s.len() && name_start(s[q + 1]) {
            let e = skip_run(s, q + 2, CharClass::Name);
            return match argument_list_here(s, e, q, col0) {
                Ok((arguments, f)) => {
                    let d = MPDirective { name: string_of(s, q + 1, e), arguments, col: col0 };
                    Ok((MPItem::Directive(d), f))
                },
                Err(stop) => Err(stop),
            };
        }
        return Err(Stop::NoMatch);
    }
    if name_start(s[q]) {
        let e = skip_run(s, q + 1, CharClass::Name);
        return match argument_list_here(s, e, q, col0) {
            Ok((arguments, f)) => {
                let i = MPInstruction { name: string_of(s, q, e), arguments, col: col0 };
                Ok((MPItem::Instruction(i), f))
            },
            Err(stop) => Err(stop),
        };
    }
    Err(Stop::NoMatch)
}

/// The line and column of position `to`, given those of position `from`.
fn advance_position(s: &[char], from: usize, to: usize, line: u32, col: u32) -> (r: (u32, u32))
    requires
        from <= to <= s@.len(),
        s@.len() < u32::MAX,
        line_col(s@, from as int) == (line as int, col as int),
        1 <= line <= from + 1,
        1 <= col <= from + 1,
    ensures
        line_col(s@, to as int) == (r.0 as int, r.1 as int),
        1 <= r.0 <= to + 1,
        1 <= r.1 <= to + 1,
{
    let mut line = line;
    let mut col = col;
    let mut cur = from;
    while cur < to
        invariant
            cur <= to <= s@.len(),
            s@.len() < u32::MAX,
            line_col(s@, cur as int) == (line as int, col as int),
            1 <= line <= cur + 1,
            1 <= col <= cur + 1,
        decreases to - cur,
    {
        if s[cur] == '\n' {
            line = line + 1;
            col = 1;
        } else {
            col = col + 1;
        }
        cur = cur + 1;
    }
    (line, col)
}

/// The column of position `a`, given the column `col0` of an earlier position `q`.
fn column_at(s: &[char], q: usize, col0: u32, a: usize) -> (r: u32)
    requires
        q <= a < s@.len(),
        s@.len() <= u32::MAX,
        col0 as int == line_col(s@, q as int).1,
    ensures
        r as int == line_col(s@, a as int).1,
{
    let mut i = a;
    while i > q
        invariant
            q <= i <= a < s@.len(),
            s@.len() <= u32::MAX,
            forall|k: int| i <= k < a ==> #[trigger] s@[k] != '\n',
        decreases i,
    {
        if s[i - 1] == '\n' {
            proof {
                lemma_column_after_newline(s@, i - 1, a as int);
            }
            return (a - i + 1) as u32;
        }
        i = i - 1;
    }
    proof {
        lemma_column_in_line(s@, q as int, a as int);
        lemma_line_col_bounds(s@, a as int);
    }
    col0 + (a - q) as u32
}

/// Parses already tab-expanded source characters into a program.
pub fn parse_chars(s: &[char]) -> (r: Result<MPProgram, ParseError>)
    requires
        s@.len() < u32::MAX,
    ensures
        program_result_view(r) == program_from(s@, 0),
{
    let mut items: Vec<(MPItem, u32)> = Vec::new();
    let mut p: usize = 0;
    let mut cur: usize = 0;
    let mut line: u32 = 1;
    let mut col: u32 = 1;
    assert(items_view(items@) + program_from(s@, 0)->Ok_0 =~= program_from(s@, 0)->Ok_0);
    loop
        invariant
            cur <= p <= s@.len(),
            s@.len() < u32::MAX,
            line_col(s@, cur as int) == (line as int, col as int),
            1 <= line <= cur + 1,
            1 <= col <= cur + 1,
            program_from(s@, 0) == prepend_items(items_view(items@), program_from(s@, p as int)),
        decreases s@.len() - p,
    {
        let q = skip_space_at(s, p);
        let (l, c) = advance_position(s, cur, q, line, col);
        line = l;
        col = c;
        cur = q;
        if q >= s.len() {
            assert(items_view(items@) + Seq::empty() =~= items_view(items@));
            return Ok(MPProgram { items });
        }
        match item_here(s, q, col) {
            Err(Stop::NoMatch) => return Err(ParseError::Syntax(ErrorLocation { line, col })),
            Err(Stop::Register(a, err)) => {
                let (l, c) = advance_position(s, q, a, line, col);
                return Err(ParseError::Register(ErrorLocation { line: l, col: c }, err));
            },
            Ok((item, e)) => {
                let ghost pre = items_view(items@);
                let ghost head = seq![(item@, line)];
                items.push((item, line));
                assert(items_view(items@) =~= pre + head);
                proof {
                    match program_from(s@, e as int) {
                        Ok(rest) => {
                            assert(pre + (head + rest) =~= (pre + head) + rest);
                        },
                        Err(_) => {},
                    }
                }
                p = e;
            },
        }
    }
}

/// Parses assembly source: tabs are expanded first, then the items are read in order.
pub fn parse_mips(input: &str) -> (r: Result<MPProgram, ParseError>)
    requires
        expand_tabs(input@).len() < u32::MAX,
    ensures
        program_result_view(r) == parse_program(input@),
{
    let s = expand_tab_chars(input);
    parse_chars(s.as_slice())
}

impl MPProgram {
    pub fn items(&self) -> (r: &[(MPItem, u32)])
        ensures
            r@ == self.items@,
    {
        self.items.as_slice()
    }

    pub fn items_mut(&mut self) -> (r: &mut Vec<(MPItem, u32)>)
        ensures
            *r == old(self).items,
            final(self).items == *final(r),
    {
        &mut self.items
    }
}

proof fn lemma_skip_space_bounds(s: Seq<char>, p: int, in_comment: bool)
    requires
        0 <= p <= s.len(),
    ensures
        p <= skip_space(s, p, in_comment) <= s.len(),
    decreases s.len() - p,
{
    if p < s.len() {
        lemma_skip_space_bounds(s, p + 1, true);
        lemma_skip_space_bounds(s, p + 1, false);
    }
}

proof fn lemma_line_col_bounds(s: Seq<char>, p: int)
    requires
        0 <= p,
    ensures
        1 <= line_col(s, p).0 <= p + 1,
        1 <= line_col(s, p).1 <= p + 1,
    decreases p,
{
    if p > 0 {
        lemma_line_col_bounds(s, p - 1);
    }
}

proof fn lemma_line_monotonic(s: Seq<char>, p: int, q: int)
    requires
        0 <= p <= q,
    ensures
        line_col(s, p).0 <= line_col(s, q).0,
    decreases q - p,
{
    if p < q {
        lemma_line_monotonic(s, p, q - 1);
    }
}

proof fn lemma_lines_from(s: Seq<char>, p: int)
    requires
        0 <= p <= s.len(),
        s.len() < u32::MAX,
        program_from(s, p) is Ok,
    ensures
        ({
            let items = program_from(s, p)->Ok_0;
            &&& forall|i: int| 0 <= i < items.len() ==> line_col(s, p).0 <= #[trigger] items[i].1
            &&& forall|i: int, j: int| 0 <= i <= j < items.len() ==> #[trigger] items[i].1
                <= #[trigger] items[j].1
        }),
    decreases s.len() - p,
{
    let q = skip_space(s, p, false);
    lemma_skip_space_bounds(s, p, false);
    lemma_line_monotonic(s, p, q);
    lemma_line_col_bounds(s, q);
    let (line, col) = line_col(s, q);
    if q < s.len() {
        let (item, e) = item_at(s, q, col)->Ok_0;
        let rest = program_from(s, e)->Ok_0;
        lemma_lines_from(s, e);
        lemma_line_monotonic(s, q, e);
        let items = program_from(s, p)->Ok_0;
        assert(items == seq![(item, line as u32)] + rest);
        assert forall|i: int| 0 <= i < items.len() implies line_col(s, p).0
            <= #[trigger] items[i].1 by {
            if i > 0 {
                assert(items[i] == rest[i - 1]);
            }
        }
        assert forall|i: int, j: int| 0 <= i <= j < items.len() implies #[trigger] items[i].1
            <= #[trigger] items[j].1 by {
            if i > 0 {
                assert(items[i] == rest[i - 1]);
            }
            if j > 0 {
                assert(items[j] == rest[j - 1]);
            }
        }
    }
}

/// Every item of a parsed program carries a line number of at least 1, and the line
/// numbers never decrease along the program.
pub proof fn lemma_parse_lines_ordered(t: Seq<char>)
    requires
        expand_tabs(t).len() < u32::MAX,
        parse_program(t) is Ok,
    ensures
        forall|i: int, j: int|
            0 <= i <= j < parse_program(t)->Ok_0.len() ==> 1 <= #[trigger] parse_program(t)->Ok_0[i].1
                <= #[trigger] parse_program(t)->Ok_0[j].1,
{
    lemma_lines_from(expand_tabs(t), 0);
}

/// Parsing source whose tabs were already expanded gives the same result as parsing
/// the source itself.
pub proof fn lemma_parse_expanded_source(t: Seq<char>)
    ensures
        parse_program(expand_tabs(t)) == parse_program(t),
{
    crate::text::lemma_expand_tabs_idempotent(t);
}

/// Between two positions with no newline between them the line stays the same and
/// the column grows by the distance.
pub proof fn lemma_column_in_line(s: Seq<char>, q: int, a: int)
    requires
        0 <= q <= a < u32::MAX,
        forall|k: int| q <= k < a ==> #[trigger] s[k] != '\n',
    ensures
        line_col(s, a).0 == line_col(s, q).0,
        line_col(s, q).1 + (a - q) == line_col(s, a).1,
    decreases a - q,
{
    lemma_line_col_bounds(s, a);
    lemma_line_col_bounds(s, q);
    if q < a {
        lemma_column_in_line(s, q, a - 1);
        assert(s[a - 1] != '\n');
    }
    assert(line_col(s, q).1 + (a - q) == line_col(s, a).1);
}

/// Just after a newline the column is 1, and it grows by one per character up to the
/// next newline.
pub proof fn lemma_column_after_newline(s: Seq<char>, k: int, a: int)
    requires
        0 <= k < a,
        k < s.len(),
        s[k] == '\n',
        forall|j: int| k < j < a ==> #[trigger] s[j] != '\n',
    ensures
        line_col(s, a).1 == a - k,
    decreases a - k,
{
    if a > k + 1 {
        lemma_column_after_newline(s, k, a - 1);
    }
}

} // verus!
