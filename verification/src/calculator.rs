//! The calculator page: the display buffer, what each key does to it, and
//! the split of the display into numbers and operators that evaluation
//! works on. The arithmetic itself is done in floating point by the caller.
use vstd::prelude::*;
use vstd::string::StrSliceExecFns;
use vstd::utf8::is_ascii_chars;

use crate::fixed_text::{
    chars16, chars_as_slice, chars_new, chars_push, number_clear, number_new, number_push, spans16,
    spans_as_slice, spans_new, spans_push, text16, text32, text_as_str, text_clear, text_new,
    text_pop, text_push, text_push_str, TEXT_CAPACITY,
};

verus! {

/// The display takes a new character only while it is shorter than this.
pub const MAX_INPUT_LEN: usize = 31;

/// Most characters one number of an expression may have: the capacity of
/// the buffer (a `heapless::String<16>`) it is read into.
pub const MAX_NUMBER_LEN: usize = 16;

/// Most numbers (and most operators) one expression may have: the capacity
/// of the buffers the numbers and the operators are kept in.
pub const MAX_TERMS: usize = 16;

pub open spec fn is_op(c: char) -> bool {
    c == '+' || c == '-' || c == 'X' || c == '/'
}

pub open spec fn is_digit(c: char) -> bool {
    '0' <= c <= '9'
}

pub open spec fn is_number_char(c: char) -> bool {
    is_digit(c) || c == '.'
}

/// The runs of characters between operators, in order; an expression with
/// `k` operators has `k + 1` pieces, some of which may be empty.
pub open spec fn pieces(s: Seq<char>) -> Seq<Seq<char>>
    decreases s.len(),
{
    if s.len() == 0 {
        seq![Seq::<char>::empty()]
    } else {
        let p = pieces(s.drop_last());
        if is_op(s.last()) {
            p.push(Seq::<char>::empty())
        } else {
            p.update(p.len() - 1, p.last().push(s.last()))
        }
    }
}

/// The operators of an expression, in order.
pub open spec fn ops_of(s: Seq<char>) -> Seq<char>
    decreases s.len(),
{
    if s.len() == 0 {
        Seq::<char>::empty()
    } else if is_op(s.last()) {
        ops_of(s.drop_last()).push(s.last())
    } else {
        ops_of(s.drop_last())
    }
}

/// An expression that evaluation accepts: only digits, points and operators,
/// numbers and operators alternating and starting and ending with a number,
/// no number longer than `MAX_NUMBER_LEN`, at most `MAX_TERMS` numbers.
pub open spec fn well_formed_expression(s: Seq<char>) -> bool {
    &&& forall|i: int| 0 <= i < s.len() ==> is_number_char(#[trigger] s[i]) || is_op(s[i])
    &&& pieces(s).len() <= MAX_TERMS
    &&& forall|k: int|
        0 <= k < pieces(s).len() ==> 0 < #[trigger] pieces(s)[k].len() <= MAX_NUMBER_LEN
}

/// Every number of the expression has at most one decimal point.
pub open spec fn at_most_one_point_per_number(s: Seq<char>) -> bool {
    forall|k: int, i: int, j: int|
        0 <= k < pieces(s).len() && 0 <= i < j < pieces(s)[k].len() && #[trigger] pieces(s)[k][i]
            == '.' ==> #[trigger] pieces(s)[k][j] != '.'
}

/// No two operators stand next to each other.
pub open spec fn no_adjacent_ops(s: Seq<char>) -> bool {
    forall|i: int| 0 <= i < s.len() - 1 ==> !(is_op(#[trigger] s[i]) && is_op(s[i + 1]))
}

pub proof fn lemma_pieces_count(s: Seq<char>)
    ensures
        pieces(s).len() >= 1,
        pieces(s).len() == ops_of(s).len() + 1,
    decreases s.len(),
{
    if s.len() > 0 {
        lemma_pieces_count(s.drop_last());
    }
}

/// A key of the calculator keypad.
#[derive(Copy, Clone, Debug, PartialEq, Eq, Structural)]
pub enum CalcKey {
    /// A digit key; the digit is below ten.
    Digit(u8),
    Dot,
    Add,
    Sub,
    Mul,
    Div,
    Equal,
    /// The "AC" key.
    Clear,
}

/// What the page has to do after a key press, besides redrawing.
#[derive(Copy, Clone, Debug, PartialEq, Eq, Structural)]
pub enum CalcAction {
    /// Nothing more.
    Idle,
    /// Leave the calculator for the home page.
    GoHome,
    /// Evaluate the expression and hand the outcome to
    /// [`Calculator::finish_evaluation`].
    Evaluate,
}

impl CalcKey {
    pub open spec fn wf(self) -> bool {
        self matches CalcKey::Digit(d) ==> d < 10
    }
}

pub open spec fn digit_char(d: u8) -> char {
    (d + 48) as char
}

pub open spec fn op_char(k: CalcKey) -> char {
    match k {
        CalcKey::Add => '+',
        CalcKey::Sub => '-',
        CalcKey::Mul => 'X',
        _ => '/',
    }
}

/// The display and the action after pressing `k` on display `e`.
pub open spec fn key_effect(e: Seq<char>, k: CalcKey) -> (Seq<char>, CalcAction) {
    match k {
        CalcKey::Digit(d) => {
            if e.len() < MAX_INPUT_LEN {
                (e.push(digit_char(d)), CalcAction::Idle)
            } else {
                (e, CalcAction::Idle)
            }
        },
        CalcKey::Dot => {
            if e.len() > 0 && e.last() == '.' {
                (e, CalcAction::GoHome)
            } else if e.len() < MAX_INPUT_LEN {
                if e.len() == 0 {
                    (seq!['0', '.'], CalcAction::Idle)
                } else if !pieces(e).last().contains('.') {
                    (e.push('.'), CalcAction::Idle)
                } else {
                    (e, CalcAction::Idle)
                }
            } else {
                (e, CalcAction::Idle)
            }
        },
        CalcKey::Equal => (e, if e.len() > 0 { CalcAction::Evaluate } else { CalcAction::Idle }),
        CalcKey::Clear => (Seq::<char>::empty(), CalcAction::Idle),
        _ => {
            if e.len() > 0 && !is_op(e.last()) && e.len() < MAX_INPUT_LEN {
                (e.push(op_char(k)), CalcAction::Idle)
            } else {
                (e, CalcAction::Idle)
            }
        },
    }
}

/// Characters with the trailing zeros removed.
pub open spec fn trim_zeros(t: Seq<char>) -> Seq<char>
    decreases t.len(),
{
    if t.len() > 0 && t.last() == '0' {
        trim_zeros(t.drop_last())
    } else {
        t
    }
}

/// A fixed-point text with the trailing zeros, and then a trailing point,
/// removed: "2.500000" becomes "2.5", "3.000000" becomes "3".
pub open spec fn trim_fraction(t: Seq<char>) -> Seq<char> {
    let u = trim_zeros(t);
    if u.len() > 0 && u.last() == '.' {
        u.drop_last()
    } else {
        u
    }
}

pub open spec fn overflow_text() -> Seq<char> {
    seq!['O', 'v', 'e', 'r', 'f', 'l', 'o', 'w']
}

pub open spec fn error_text() -> Seq<char> {
    seq!['E', 'r', 'r', 'o', 'r']
}

/// The text shown for a formatted result: the fraction trimmed when it has
/// one, and "Overflow" in place of anything longer than the input limit.
pub open spec fn result_text(t: Seq<char>, fractional: bool) -> Seq<char> {
    let u = if fractional { trim_fraction(t) } else { t };
    if u.len() > MAX_INPUT_LEN {
        overflow_text()
    } else {
        u
    }
}

/// The display once an evaluation outcome has been shown.
pub open spec fn evaluation_display(outcome: Result<Seq<char>, ()>) -> Seq<char> {
    match outcome {
        Ok(v) => if v.len() <= TEXT_CAPACITY { v } else { Seq::<char>::empty() },
        Err(_) => error_text(),
    }
}

/// The numbers (as character ranges of `s`) and operators found in `s`:
/// one range per piece, in order, each holding that piece's characters; the
/// first starts the text, each next one starts just past the operator after
/// the one before, and the last ends the text.
pub open spec fn tokens_match(s: Seq<char>, numbers: Seq<(usize, usize)>, ops: Seq<char>) -> bool {
    &&& ops == ops_of(s)
    &&& numbers.len() == pieces(s).len()
    &&& numbers[0].0 == 0
    &&& numbers.last().1 == s.len()
    &&& forall|k: int|
        0 <= k < numbers.len() ==> {
            &&& (#[trigger] numbers[k]).0 <= numbers[k].1 <= s.len()
            &&& s.subrange(numbers[k].0 as int, numbers[k].1 as int) == pieces(s)[k]
            &&& k > 0 ==> numbers[k].0 == numbers[k - 1].1 + 1
        }
}

pub open spec fn is_prefix(a: Seq<char>, b: Seq<char>) -> bool {
    a.len() <= b.len() && forall|j: int| 0 <= j < a.len() ==> a[j] == b[j]
}

/// The pieces of a prefix of `s` are pieces of `s`, but for the last one,
/// which may still grow.
pub proof fn lemma_pieces_of_prefix(s: Seq<char>, i: int)
    requires
        0 <= i <= s.len(),
    ensures
        ({
            let p = pieces(s.take(i));
            let q = pieces(s);
            &&& p.len() <= q.len()
            &&& forall|k: int| 0 <= k < p.len() - 1 ==> p[k] == q[k]
            &&& is_prefix(p.last(), q[p.len() - 1])
        }),
    decreases s.len(),
{
    lemma_pieces_count(s.take(i));
    lemma_pieces_count(s);
    if i == s.len() {
        assert(s.take(i) =~= s);
    } else {
        let d = s.drop_last();
        assert(d.take(i) =~= s.take(i));
        lemma_pieces_of_prefix(d, i);
        lemma_pieces_count(d);
    }
}

/// Where the numbers of an expression lie (start and end character index)
/// and which operators join them.
pub struct Tokens {
    pub numbers: heapless::Vec<(usize, usize), 16>,
    pub operators: heapless::Vec<char, 16>,
}

impl Tokens {
    /// The ranges of the numbers, in order.
    pub fn numbers(&self) -> (r: &[(usize, usize)])
        ensures
            r@ == spans16(self.numbers),
    {
        spans_as_slice(&self.numbers)
    }

    /// The operators, in order.
    pub fn operators(&self) -> (r: &[char])
        ensures
            r@ == chars16(self.operators),
    {
        chars_as_slice(&self.operators)
    }
}

/// The calculator's display state.
pub struct Calculator {
    expression: heapless::String<32>,
}

impl View for Calculator {
    type V = Seq<char>;

    closed spec fn view(&self) -> Seq<char> {
        text32(self.expression)
    }
}

/// Whether the current piece (the characters after the last operator)
/// holds a decimal point.
fn last_piece_has_point(s: &str) -> (r: bool)
    ensures
        r == pieces(s@).last().contains('.'),
{
    let n = s.unicode_len();
    let mut seen = false;
    let mut i: usize = 0;
    while i < n
        invariant
            n == s@.len(),
            i <= n,
            seen == pieces(s@.take(i as int)).last().contains('.'),
        decreases n - i,
    {
        let c = s.get_char(i);
        proof {
            let t = s@.take(i as int + 1);
            assert(t.drop_last() =~= s@.take(i as int));
            lemma_pieces_count(s@.take(i as int));
            let p = pieces(s@.take(i as int));
            if !is_op(c) {
                assert(pieces(t).last() =~= p.last().push(c));
                if p.last().contains('.') {
                    let j = choose|j: int| 0 <= j < p.last().len() && p.last()[j] == '.';
                    assert(pieces(t).last()[j] == '.');
                }
                if c == '.' {
                    assert(pieces(t).last()[p.last().len() as int] == '.');
                }
                if pieces(t).last().contains('.') && c != '.' {
                    let j = choose|j: int| 0 <= j < pieces(t).last().len() && pieces(t).last()[j] == '.';
                    assert(p.last()[j] == '.');
                }
            }
        }
        if c == '+' || c == '-' || c == 'X' || c == '/' {
            seen = false;
        } else if c == '.' {
            seen = true;
        }
        i = i + 1;
    }
    assert(s@.take(n as int) =~= s@);
    seen
}

/// Whether the text ends with the character `c`.
fn text_ends_with(s: &heapless::String<32>, c: char) -> (r: bool)
    ensures
        r == (text32(*s).len() > 0 && text32(*s).last() == c),
{
    let t = text_as_str(s);
    let n = t.unicode_len();
    n > 0 && t.get_char(n - 1) == c
}

/// Turns the formatted value of a result into the text shown: a fixed-point
/// text (`fractional`) loses its trailing zeros and then a trailing point,
/// and a text longer than the input limit becomes "Overflow".
pub fn format_result(formatted: &str, fractional: bool) -> (r: heapless::String<32>)
    requires
        is_ascii_chars(formatted@),
        formatted@.len() <= TEXT_CAPACITY,
    ensures
        text32(r) == result_text(formatted@, fractional),
        is_ascii_chars(text32(r)),
{
    let ghost orig = formatted@;
    let mut s = text_new();
    let _ = text_push_str(&mut s, formatted);
    assert(text32(s) =~= orig);
    if fractional {
        while text_ends_with(&s, '0')
            invariant
                trim_zeros(text32(s)) == trim_zeros(orig),
                is_ascii_chars(text32(s)),
            decreases text32(s).len(),
        {
            let _ = text_pop(&mut s);
        }
        if text_ends_with(&s, '.') {
            let _ = text_pop(&mut s);
        }
    }
    let len = text_as_str(&s).unicode_len();
    if len > MAX_INPUT_LEN {
        let mut o = text_new();
        let msg = "Overflow";
        proof {
            reveal_strlit("Overflow");
        }
        let _ = text_push_str(&mut o, msg);
        assert(text32(o) =~= overflow_text());
        o
    } else {
        s
    }
}

impl Calculator {
    /// The well-formedness of the display: plain ASCII text.
    pub open spec fn wf(&self) -> bool {
        is_ascii_chars(self@)
    }

    /// An empty display.
    pub fn new() -> (r: Self)
        ensures
            r.wf(),
            r@ == Seq::<char>::empty(),
    {
        Calculator { expression: text_new() }
    }

    /// The text on the display.
    pub fn expression(&self) -> (r: &str)
        ensures
            r@ == self@,
    {
        text_as_str(&self.expression)
    }

    /// Applies one key press to the display and says what else the page
    /// has to do.
    pub fn user_input(&mut self, key: CalcKey) -> (r: CalcAction)
        requires
            old(self).wf(),
            key.wf(),
        ensures
            final(self).wf(),
            (final(self)@, r) == key_effect(old(self)@, key),
    {
        let s = text_as_str(&self.expression);
        let len = s.unicode_len();
        match key {
            CalcKey::Digit(d) => {
                if len < MAX_INPUT_LEN {
                    let c = (d + 48u8) as char;
                    let _ = text_push(&mut self.expression, c);
                }
                CalcAction::Idle
            },
            CalcKey::Dot => {
                if len > 0 && s.get_char(len - 1) == '.' {
                    CalcAction::GoHome
                } else if len < MAX_INPUT_LEN {
                    if len == 0 {
                        let _ = text_push(&mut self.expression, '0');
                        let _ = text_push(&mut self.expression, '.');
                        assert(self@ =~= seq!['0', '.']);
                    } else if !last_piece_has_point(s) {
                        let _ = text_push(&mut self.expression, '.');
                    }
                    CalcAction::Idle
                } else {
                    CalcAction::Idle
                }
            },
            CalcKey::Equal => {
                if len > 0 {
                    CalcAction::Evaluate
                } else {
                    CalcAction::Idle
                }
            },
            CalcKey::Clear => {
                text_clear(&mut self.expression);
                CalcAction::Idle
            },
            _ => {
                if len > 0 {
                    let last = s.get_char(len - 1);
                    if !(last == '+' || last == '-' || last == 'X' || last == '/') && len
                        < MAX_INPUT_LEN {
                        let c = match key {
                            CalcKey::Add => '+',
                            CalcKey::Sub => '-',
                            CalcKey::Mul => 'X',
                            _ => '/',
                        };
                        let _ = text_push(&mut self.expression, c);
                    }
                }
                CalcAction::Idle
            },
        }
    }

    /// Splits the display into its numbers and operators, as evaluation
    /// needs them; fails on anything that is not a well-formed expression.
    #[verifier::spinoff_prover]
    pub fn tokenize(&self) -> (r: Result<Tokens, ()>)
        requires
            self.wf(),
        ensures
            r is Ok <==> well_formed_expression(self@),
            r matches Ok(t) ==> tokens_match(self@, spans16(t.numbers), chars16(t.operators)),
    {
        let s = text_as_str(&self.expression);
        let n = s.unicode_len();
        let mut numbers = spans_new();
        let mut operators = chars_new();
        let mut current = number_new();
        let mut start: usize = 0;
        let mut i: usize = 0;
        while i < n
            invariant
                n == s@.len(),
                s@ == self@,
                start <= i <= n,
                i - start <= MAX_NUMBER_LEN,
                spans16(numbers).len() <= MAX_TERMS,
                spans16(numbers).len() == pieces(s@.take(i as int)).len() - 1,
                spans16(numbers).len() == 0 ==> start == 0,
                spans16(numbers).len() > 0 ==> start == spans16(numbers).last().1 + 1,
                is_ascii_chars(s@),
                chars16(operators) == ops_of(s@.take(i as int)),
                text16(current) == s@.subrange(start as int, i as int),
                pieces(s@.take(i as int)).last() == s@.subrange(start as int, i as int),
                forall|j: int| 0 <= j < i ==> is_number_char(#[trigger] s@[j]) || is_op(s@[j]),
                forall|k: int|
                    0 <= k < spans16(numbers).len() ==> {
                        &&& (#[trigger] spans16(numbers)[k]).0 <= spans16(numbers)[k].1 < start
                        &&& s@.subrange(
                            spans16(numbers)[k].0 as int,
                            spans16(numbers)[k].1 as int,
                        ) == pieces(s@.take(i as int))[k]
                        &&& 0 < pieces(s@.take(i as int))[k].len() <= MAX_NUMBER_LEN
                        &&& k == 0 ==> spans16(numbers)[k].0 == 0
                        &&& k > 0 ==> spans16(numbers)[k].0 == spans16(numbers)[k - 1].1 + 1
                    },
            decreases n - i,
        {
            let c = s.get_char(i);
            assert(s@[i as int] == c);
            let ghost t = s@.take(i as int);
            let ghost t1 = s@.take(i as int + 1);
            proof {
                assert(t1.drop_last() =~= t);
                lemma_pieces_count(t);
                lemma_pieces_count(t1);
                lemma_pieces_of_prefix(s@, i as int + 1);
            }
            if ('0' <= c && c <= '9') || c == '.' {
                if number_push(&mut current, c).is_err() {
                    // the current number would exceed its buffer
                    proof {
                        assert(pieces(t1).last().len() == MAX_NUMBER_LEN + 1);
                    }
                    return Err(());
                }
                proof {
                    assert(text16(current) =~= s@.subrange(start as int, i as int + 1));
                    assert(pieces(t1).last() =~= s@.subrange(start as int, i as int + 1));
                }
            } else if c == '+' || c == '-' || c == 'X' || c == '/' {
                if i == start {
                    // an operator with no number before it
                    proof {
                        assert(pieces(t1)[pieces(t).len() - 1] == pieces(t).last());
                    }
                    return Err(());
                }
                let ghost before = spans16(numbers);
                if spans_push(&mut numbers, (start, i)).is_err() {
                    // a seventeenth number
                    return Err(());
                }
                number_clear(&mut current);
                if chars_push(&mut operators, c).is_err() {
                    return Err(());
                }
                proof {
                    let q = spans16(numbers);
                    assert(q.last() == (start, i));
                    assert forall|k: int| 0 < k < q.len() implies #[trigger] q[k].0 == q[k - 1].1
                        + 1 by {
                        if k < q.len() - 1 {
                            assert(q[k] == before[k]);
                            assert(q[k - 1] == before[k - 1]);
                        }
                    }
                }
                start = i + 1;
                proof {
                    assert(pieces(t1).last() =~= s@.subrange(start as int, i as int + 1));
                }
            } else {
                return Err(());
            }
            i = i + 1;
        }
        proof {
            assert(s@.take(n as int) =~= s@);
            lemma_pieces_count(s@);
        }
        if i == start {
            // the expression ends with an operator, or is empty
            return Err(());
        }
        let ghost before = spans16(numbers);
        if spans_push(&mut numbers, (start, n)).is_err() {
            // a seventeenth number
            return Err(());
        }
        proof {
            let q = pieces(s@);
            let v = spans16(numbers);
            assert(s@.take(i as int) == s@);
            assert(v.last() == (start, n));
            assert forall|k: int| 0 <= k < q.len() implies 0 < #[trigger] q[k].len()
                <= MAX_NUMBER_LEN by {
                if k < q.len() - 1 {
                    assert(0 < pieces(s@.take(i as int))[k].len());
                } else {
                    assert(q[k] == s@.subrange(start as int, n as int));
                }
            }
            assert forall|k: int| 0 <= k < v.len() implies {
                &&& (#[trigger] v[k]).0 <= v[k].1 <= s@.len()
                &&& s@.subrange(v[k].0 as int, v[k].1 as int) == q[k]
                &&& k > 0 ==> v[k].0 == v[k - 1].1 + 1
            } by {
                if k < v.len() - 1 {
                    assert(v[k] == before[k]);
                    if k > 0 {
                        assert(v[k - 1] == before[k - 1]);
                    }
                } else {
                    assert(q[k] == s@.subrange(start as int, n as int));
                    if k > 0 {
                        assert(v[k - 1] == before[k - 1]);
                    }
                }
            }
        }
        Ok(Tokens { numbers, operators })
    }

    /// Shows the outcome of an evaluation: the result text, or "Error".
    pub fn finish_evaluation(&mut self, outcome: Result<&str, ()>)
        requires
            old(self).wf(),
            outcome matches Ok(v) ==> is_ascii_chars(v@),
        ensures
            final(self).wf(),
            final(self)@ == evaluation_display(
                match outcome {
                    Ok(v) => Ok(v@),
                    Err(e) => Err(e),
                },
            ),
    {
        text_clear(&mut self.expression);
        match outcome {
            Ok(v) => {
                let _ = text_push_str(&mut self.expression, v);
            },
            Err(_) => {
                let msg = "Error";
                proof {
                    reveal_strlit("Error");
                }
                let _ = text_push_str(&mut self.expression, msg);
            },
        }
    }
}

/// The text of numbers `p` joined by operators `o`.
pub open spec fn join_pieces(p: Seq<Seq<char>>, o: Seq<char>) -> Seq<char>
    decreases o.len(),
{
    if o.len() == 0 || p.len() == 0 {
        if p.len() == 0 {
            Seq::<char>::empty()
        } else {
            p[0]
        }
    } else {
        join_pieces(p.drop_last(), o.drop_last()) + seq![o.last()] + p.last()
    }
}

proof fn lemma_join_extend_last(p: Seq<Seq<char>>, o: Seq<char>, c: char)
    requires
        p.len() == o.len() + 1,
    ensures
        join_pieces(p.update(p.len() - 1, p.last().push(c)), o) == join_pieces(p, o).push(c),
    decreases o.len(),
{
    let q = p.update(p.len() - 1, p.last().push(c));
    if o.len() == 0 {
    } else {
        assert(q.drop_last() =~= p.drop_last());
        assert((join_pieces(p.drop_last(), o.drop_last()) + seq![o.last()] + p.last()).push(c)
            =~= join_pieces(p.drop_last(), o.drop_last()) + seq![o.last()] + p.last().push(c));
    }
}

/// Splitting an expression into numbers and operators loses nothing:
/// joining the pieces with the operators gives the expression back.
pub proof fn lemma_pieces_rejoin(s: Seq<char>)
    ensures
        join_pieces(pieces(s), ops_of(s)) == s,
    decreases s.len(),
{
    lemma_pieces_count(s);
    if s.len() == 0 {
        assert(pieces(s) == seq![Seq::<char>::empty()]);
    } else {
        let d = s.drop_last();
        lemma_pieces_rejoin(d);
        lemma_pieces_count(d);
        let p = pieces(d);
        let o = ops_of(d);
        if is_op(s.last()) {
            assert(pieces(s).drop_last() =~= p);
            assert(ops_of(s).drop_last() =~= o);
            assert(d + seq![s.last()] + Seq::<char>::empty() =~= s);
        } else {
            lemma_join_extend_last(p, o, s.last());
            assert(d.push(s.last()) =~= s);
        }
    }
}

/// A key press never gives a number a second decimal point.
pub proof fn lemma_key_keeps_one_point_per_number(e: Seq<char>, k: CalcKey)
    requires
        k.wf(),
        at_most_one_point_per_number(e),
    ensures
        at_most_one_point_per_number(key_effect(e, k).0),
{
    let e2 = key_effect(e, k).0;
    lemma_pieces_count(e);
    lemma_pieces_count(e2);
    let p = pieces(e);
    if e2 =~= e {
    } else if e2.len() == 0 {
        assert(pieces(e2) =~= seq![Seq::<char>::empty()]);
    } else if k is Dot && e.len() == 0 {
        let a = seq!['0'];
        assert(e2.drop_last() =~= a);
        assert(a.drop_last() =~= Seq::<char>::empty());
        let z = Seq::<char>::empty();
        assert(pieces(z) == seq![z]);
        assert(z.push('0') =~= seq!['0']);
        assert(seq![z].update(0, z.push('0')) =~= seq![seq!['0']]);
        assert(pieces(a) =~= seq![seq!['0']]);
        assert(seq!['0'].push('.') =~= seq!['0', '.']);
        assert(seq![seq!['0']].update(0, seq!['0'].push('.')) =~= seq![seq!['0', '.']]);
        assert(pieces(e2) =~= seq![seq!['0', '.']]);
    } else {
        assert(e2.drop_last() =~= e);
        let c = e2.last();
        if is_op(c) {
            assert(pieces(e2) =~= p.push(Seq::<char>::empty()));
        } else {
            let l = p.last().push(c);
            assert(pieces(e2) =~= p.update(p.len() - 1, l));
            if c == '.' {
                assert(!p.last().contains('.'));
                assert forall|i: int, j: int|
                    0 <= i < j < l.len() && #[trigger] l[i] == '.' implies #[trigger] l[j] != '.' by {
                    if j < l.len() - 1 {
                        assert(p.last()[j] == l[j]);
                    } else {
                        assert(p.last()[i] == l[i]);
                    }
                }
            } else {
                assert(k is Digit);
                assert forall|i: int, j: int|
                    0 <= i < j < l.len() && #[trigger] l[i] == '.' implies #[trigger] l[j] != '.' by {
                    if j < l.len() - 1 {
                        assert(p[p.len() - 1][i] == '.');
                        assert(p[p.len() - 1][j] == l[j]);
                    }
                }
            }
        }
    }
}

/// A key press never puts two operators side by side.
pub proof fn lemma_key_keeps_ops_apart(e: Seq<char>, k: CalcKey)
    requires
        k.wf(),
        no_adjacent_ops(e),
    ensures
        no_adjacent_ops(key_effect(e, k).0),
{
    let e2 = key_effect(e, k).0;
    if k is Dot && e.len() == 0 && e2.len() == 2 {
        assert(e2 =~= seq!['0', '.']);
    }
    if e2.len() == e.len() + 1 {
        assert forall|i: int| 0 <= i < e2.len() - 1 implies !(is_op(#[trigger] e2[i]) && is_op(
            e2[i + 1],
        )) by {
            if i < e.len() - 1 {
                assert(e2[i] == e[i] && e2[i + 1] == e[i + 1]);
            }
        }
    }
}

/// A display within the input limit stays within it, whatever key is pressed.
pub proof fn lemma_key_keeps_input_limit(e: Seq<char>, k: CalcKey)
    requires
        e.len() <= MAX_INPUT_LEN,
    ensures
        key_effect(e, k).0.len() <= MAX_INPUT_LEN,
{
}

/// Once the point key has put a point at the end of the display, pressing it
/// again leaves for the home page.
pub proof fn lemma_second_point_goes_home(e: Seq<char>)
    requires
        key_effect(e, CalcKey::Dot).0 != e,
    ensures
        key_effect(key_effect(e, CalcKey::Dot).0, CalcKey::Dot).1 == CalcAction::GoHome,
{
}

proof fn lemma_trim_zeros(t: Seq<char>)
    ensures
        trim_zeros(t) =~= t.take(trim_zeros(t).len() as int),
        trim_zeros(t).len() <= t.len(),
        !(trim_zeros(t).len() > 0 && trim_zeros(t).last() == '0'),
    decreases t.len(),
{
    if t.len() > 0 && t.last() == '0' {
        lemma_trim_zeros(t.drop_last());
    }
}

/// A text with at most one decimal point.
pub open spec fn at_most_one_point(t: Seq<char>) -> bool {
    forall|i: int, j: int| 0 <= i < j < t.len() && #[trigger] t[i] == '.' ==> #[trigger] t[j] != '.'
}

/// A shown fractional result of a number text with one decimal point ends
/// neither with a point nor, while it keeps its point, with a zero:
/// "2.500000" is shown as "2.5" and "3.000000" as "3".
pub proof fn lemma_shown_fraction_shape(t: Seq<char>)
    requires
        at_most_one_point(t),
    ensures
        !(result_text(t, true).len() > 0 && result_text(t, true).last() == '.'),
        result_text(t, true).contains('.') ==> !(result_text(t, true).len() > 0 && result_text(
            t,
            true,
        ).last() == '0'),
{
    lemma_trim_zeros(t);
    let u0 = trim_zeros(t);
    let u = trim_fraction(t);
    if u0.len() > 0 && u0.last() == '.' {
        assert(u =~= u0.drop_last());
        assert(t[u0.len() - 1] == '.');
        assert forall|k: int| 0 <= k < u.len() implies u[k] != '.' by {
            assert(u[k] == t[k]);
        }
        assert(!u.contains('.'));
    }
    let r = result_text(t, true);
    if u.len() > MAX_INPUT_LEN {
        assert(r == overflow_text());
        assert forall|k: int| 0 <= k < r.len() implies r[k] != '.' by {}
    }
}

/// Every shown result is within the input limit.
pub proof fn lemma_result_within_limit(t: Seq<char>, fractional: bool)
    ensures
        result_text(t, fractional).len() <= MAX_INPUT_LEN,
{
}

} // verus!
