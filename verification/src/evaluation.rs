//! Evaluation of a calculator expression over any number type: the
//! numbers joined by operators, products and quotients before sums and
//! differences. The caller supplies the arithmetic.
use vstd::prelude::*;

use crate::calculator::is_op;

verus! {

/// The running sum so far (none before the first term) with the term just
/// finished added to it or taken from it.
pub open spec fn combine<T>(
    sum: Option<T>,
    sign: char,
    term: T,
    plus: spec_fn(T, T) -> T,
    minus: spec_fn(T, T) -> T,
) -> T {
    match sum {
        None => term,
        Some(s) => if sign == '+' {
            plus(s, term)
        } else {
            minus(s, term)
        },
    }
}

/// The state of evaluating `nums` joined by `ops` after the first `i`
/// operators, read from left to right: the sum of the finished terms, the
/// sign of the current term, and the current term. 'X' and '/' extend the
/// current term, so they bind tighter than '+' and '-', which finish it.
/// `None` once a division has failed.
pub open spec fn eval_state<T>(
    nums: Seq<T>,
    ops: Seq<char>,
    i: nat,
    times: spec_fn(T, T) -> T,
    divide: spec_fn(T, T) -> Option<T>,
    plus: spec_fn(T, T) -> T,
    minus: spec_fn(T, T) -> T,
) -> Option<(Option<T>, char, T)>
    decreases i,
{
    if i == 0 {
        Some((None, '+', nums[0]))
    } else {
        match eval_state(nums, ops, (i - 1) as nat, times, divide, plus, minus) {
            None => None,
            Some((sum, sign, term)) => {
                let op = ops[i - 1];
                let n = nums[i as int];
                if op == 'X' {
                    Some((sum, sign, times(term, n)))
                } else if op == '/' {
                    match divide(term, n) {
                        Some(q) => Some((sum, sign, q)),
                        None => None,
                    }
                } else {
                    Some((Some(combine(sum, sign, term, plus, minus)), op, n))
                }
            },
        }
    }
}

/// The value of `nums` joined by `ops`: products and quotients first, then
/// sums and differences, each from left to right; `None` when a division
/// fails.
pub open spec fn eval_expression<T>(
    nums: Seq<T>,
    ops: Seq<char>,
    times: spec_fn(T, T) -> T,
    divide: spec_fn(T, T) -> Option<T>,
    plus: spec_fn(T, T) -> T,
    minus: spec_fn(T, T) -> T,
) -> Option<T> {
    match eval_state(nums, ops, ops.len(), times, divide, plus, minus) {
        None => None,
        Some((sum, sign, term)) => Some(combine(sum, sign, term, plus, minus)),
    }
}

/// The closure `f` always returns `g` of its arguments.
pub open spec fn computes<T, F: Fn(T, T) -> T>(f: F, g: spec_fn(T, T) -> T) -> bool {
    forall|a: T, b: T, r: T| #[trigger] call_ensures(f, (a, b), r) ==> r == g(a, b)
}

/// The closure `f` always returns `g` of its arguments.
pub open spec fn computes_partial<T, F: Fn(T, T) -> Option<T>>(
    f: F,
    g: spec_fn(T, T) -> Option<T>,
) -> bool {
    forall|a: T, b: T, r: Option<T>| #[trigger] call_ensures(f, (a, b), r) ==> r == g(a, b)
}

pub open spec fn total<T, R, F: Fn(T, T) -> R>(f: F) -> bool {
    forall|a: T, b: T| call_requires(f, (a, b))
}

/// One step of the evaluation: the state after applying operator `op` to
/// the number `x`, or `None` when a division fails.
pub open spec fn eval_step<T>(
    st: (Option<T>, char, T),
    op: char,
    x: T,
    times: spec_fn(T, T) -> T,
    divide: spec_fn(T, T) -> Option<T>,
    plus: spec_fn(T, T) -> T,
    minus: spec_fn(T, T) -> T,
) -> Option<(Option<T>, char, T)> {
    let (sum, sign, term) = st;
    if op == 'X' {
        Some((sum, sign, times(term, x)))
    } else if op == '/' {
        match divide(term, x) {
            Some(q) => Some((sum, sign, q)),
            None => None,
        }
    } else {
        Some((Some(combine(sum, sign, term, plus, minus)), op, x))
    }
}

proof fn lemma_eval_state_step<T>(
    nums: Seq<T>,
    ops: Seq<char>,
    i: nat,
    times: spec_fn(T, T) -> T,
    divide: spec_fn(T, T) -> Option<T>,
    plus: spec_fn(T, T) -> T,
    minus: spec_fn(T, T) -> T,
)
    requires
        i < ops.len(),
        eval_state(nums, ops, i, times, divide, plus, minus) is Some,
    ensures
        eval_state(nums, ops, i + 1, times, divide, plus, minus) == eval_step(
            eval_state(nums, ops, i, times, divide, plus, minus).unwrap(),
            ops[i as int],
            nums[i + 1 as int],
            times,
            divide,
            plus,
            minus,
        ),
{
    assert(((i + 1) - 1) as nat == i);
}

proof fn lemma_failure_persists<T>(
    nums: Seq<T>,
    ops: Seq<char>,
    i: nat,
    j: nat,
    times: spec_fn(T, T) -> T,
    divide: spec_fn(T, T) -> Option<T>,
    plus: spec_fn(T, T) -> T,
    minus: spec_fn(T, T) -> T,
)
    requires
        i <= j,
        eval_state(nums, ops, i, times, divide, plus, minus) is None,
    ensures
        eval_state(nums, ops, j, times, divide, plus, minus) is None,
    decreases j - i,
{
    if i < j {
        lemma_failure_persists(nums, ops, i, (j - 1) as nat, times, divide, plus, minus);
    }
}

/// Evaluates numbers joined by operators with the given arithmetic:
/// multiplication and division before addition and subtraction, each from
/// left to right. `divide` returns `None` for a division it refuses (by
/// zero), and so does the evaluation.
#[verifier::spinoff_prover]
pub fn evaluate<T: Copy, FM, FD, FA, FS>(
    nums: &Vec<T>,
    ops: &[char],
    times: FM,
    divide: FD,
    plus: FA,
    minus: FS,
) -> (r: Option<T>) where
    FM: Fn(T, T) -> T,
    FD: Fn(T, T) -> Option<T>,
    FA: Fn(T, T) -> T,
    FS: Fn(T, T) -> T,

    requires
        nums@.len() == ops@.len() + 1,
        forall|k: int| 0 <= k < ops@.len() ==> is_op(#[trigger] ops@[k]),
        total::<T, T, FM>(times),
        total::<T, Option<T>, FD>(divide),
        total::<T, T, FA>(plus),
        total::<T, T, FS>(minus),
    ensures
        forall|m: spec_fn(T, T) -> T, d: spec_fn(T, T) -> Option<T>, a: spec_fn(T, T) -> T, s: spec_fn(
            T,
            T,
        ) -> T|
            computes(times, m) && computes_partial(divide, d) && computes(plus, a) && computes(
                minus,
                s,
            ) ==> #[trigger] eval_expression(nums@, ops@, m, d, a, s) == r,
{
    let n = ops.len();
    let mut sum: Option<T> = None;
    let mut sign: char = '+';
    let mut term: T = nums[0];
    let mut i: usize = 0;
    while i < n
        invariant
            n == ops@.len(),
            nums@.len() == n + 1,
            i <= n,
            forall|k: int| 0 <= k < ops@.len() ==> is_op(#[trigger] ops@[k]),
            total::<T, T, FM>(times),
            total::<T, Option<T>, FD>(divide),
            total::<T, T, FA>(plus),
            total::<T, T, FS>(minus),
            forall|m: spec_fn(T, T) -> T, d: spec_fn(T, T) -> Option<T>, a: spec_fn(T, T) -> T, s:
                spec_fn(T, T) -> T|
                computes(times, m) && computes_partial(divide, d) && computes(plus, a) && computes(
                    minus,
                    s,
                ) ==> #[trigger] eval_state(nums@, ops@, i as nat, m, d, a, s) == Some(
                    (sum, sign, term),
                ),
        decreases n - i,
    {
        let op = ops[i];
        let x = nums[i + 1];
        let ghost st = (sum, sign, term);
        let mut failed = false;
        if op == 'X' {
            term = times(term, x);
        } else if op == '/' {
            match divide(term, x) {
                Some(q) => {
                    term = q;
                },
                None => {
                    failed = true;
                },
            }
        } else {
            let finished = match sum {
                None => term,
                Some(acc) => if sign == '+' {
                    plus(acc, term)
                } else {
                    minus(acc, term)
                },
            };
            sum = Some(finished);
            sign = op;
            term = x;
        }
        assert forall|m: spec_fn(T, T) -> T, d: spec_fn(T, T) -> Option<T>, a: spec_fn(T, T) -> T, s:
            spec_fn(T, T) -> T|
            computes(times, m) && computes_partial(divide, d) && computes(plus, a) && computes(
                minus,
                s,
            ) implies #[trigger] eval_state(nums@, ops@, (i + 1) as nat, m, d, a, s) == (if failed {
            None
        } else {
            Some((sum, sign, term))
        }) by {
            assert(eval_state(nums@, ops@, i as nat, m, d, a, s) == Some(st));
            lemma_eval_state_step(nums@, ops@, i as nat, m, d, a, s);
        }
        if failed {
            assert forall|m: spec_fn(T, T) -> T, d: spec_fn(T, T) -> Option<T>, a: spec_fn(T, T) -> T, s:
                spec_fn(T, T) -> T|
                computes(times, m) && computes_partial(divide, d) && computes(plus, a) && computes(
                    minus,
                    s,
                ) implies #[trigger] eval_expression(nums@, ops@, m, d, a, s) == None::<T> by {
                lemma_failure_persists(nums@, ops@, (i + 1) as nat, n as nat, m, d, a, s);
            }
            return None;
        }
        i = i + 1;
    }
    let r = match sum {
        None => term,
        Some(acc) => if sign == '+' {
            plus(acc, term)
        } else {
            minus(acc, term)
        },
    };
    Some(r)
}

/// Multiplication binds tighter than addition, on either side of it.
pub proof fn lemma_products_before_sums<T>(
    a: T,
    b: T,
    c: T,
    times: spec_fn(T, T) -> T,
    divide: spec_fn(T, T) -> Option<T>,
    plus: spec_fn(T, T) -> T,
    minus: spec_fn(T, T) -> T,
)
    ensures
        eval_expression(seq![a, b, c], seq!['+', 'X'], times, divide, plus, minus) == Some(
            plus(a, times(b, c)),
        ),
        eval_expression(seq![a, b, c], seq!['X', '+'], times, divide, plus, minus) == Some(
            plus(times(a, b), c),
        ),
{
    reveal_with_fuel(eval_state, 3);
}

/// Subtraction and division group from the left.
pub proof fn lemma_left_to_right<T>(
    a: T,
    b: T,
    c: T,
    times: spec_fn(T, T) -> T,
    divide: spec_fn(T, T) -> Option<T>,
    plus: spec_fn(T, T) -> T,
    minus: spec_fn(T, T) -> T,
)
    ensures
        eval_expression(seq![a, b, c], seq!['-', '-'], times, divide, plus, minus) == Some(
            minus(minus(a, b), c),
        ),
        eval_expression(seq![a, b, c], seq!['/', '/'], times, divide, plus, minus) == (match divide(
            a,
            b,
        ) {
            Some(q) => divide(q, c),
            None => None,
        }),
        eval_expression(seq![a, b, c], seq!['/', 'X'], times, divide, plus, minus) == (match divide(
            a,
            b,
        ) {
            Some(q) => Some(times(q, c)),
            None => None,
        }),
        eval_expression(seq![a, b, c], seq!['X', '/'], times, divide, plus, minus) == divide(
            times(a, b),
            c,
        ),
{
    reveal_with_fuel(eval_state, 3);
}

/// A refused division makes the whole evaluation fail, whatever follows.
pub proof fn lemma_refused_division_fails<T>(
    nums: Seq<T>,
    ops: Seq<char>,
    i: nat,
    times: spec_fn(T, T) -> T,
    divide: spec_fn(T, T) -> Option<T>,
    plus: spec_fn(T, T) -> T,
    minus: spec_fn(T, T) -> T,
)
    requires
        i < ops.len(),
        ops[i as int] == '/',
        eval_state(nums, ops, i, times, divide, plus, minus) matches Some((_, _, t)) && divide(
            t,
            nums[i + 1 as int],
        ) is None,
    ensures
        eval_expression(nums, ops, times, divide, plus, minus) is None,
{
    lemma_eval_state_step(nums, ops, i, times, divide, plus, minus);
    lemma_failure_persists(nums, ops, i + 1, ops.len(), times, divide, plus, minus);
}

/// `nums` with the two numbers at `i` and `i + 1` replaced by `v`.
pub open spec fn merge_at<T>(nums: Seq<T>, i: int, v: T) -> Seq<T> {
    nums.take(i).push(v) + nums.skip(i + 2)
}

/// `ops` without the operator at `i`.
pub open spec fn drop_op(ops: Seq<char>, i: int) -> Seq<char> {
    ops.take(i) + ops.skip(i + 1)
}

/// The evaluation state depends only on the numbers and operators read so
/// far.
proof fn lemma_eval_state_agree<T>(
    n1: Seq<T>,
    o1: Seq<char>,
    n2: Seq<T>,
    o2: Seq<char>,
    j: nat,
    times: spec_fn(T, T) -> T,
    divide: spec_fn(T, T) -> Option<T>,
    plus: spec_fn(T, T) -> T,
    minus: spec_fn(T, T) -> T,
)
    requires
        forall|k: int| 0 <= k <= j ==> n1[k] == n2[k],
        forall|k: int| 0 <= k < j ==> o1[k] == o2[k],
    ensures
        eval_state(n1, o1, j, times, divide, plus, minus) == eval_state(
            n2,
            o2,
            j,
            times,
            divide,
            plus,
            minus,
        ),
    decreases j,
{
    if j > 0 {
        lemma_eval_state_agree(n1, o1, n2, o2, (j - 1) as nat, times, divide, plus, minus);
        assert(n1[j as int] == n2[j as int]);
        assert(o1[j - 1] == o2[j - 1]);
    }
}

/// Two evaluations that reach the same state, one of them a step later,
/// stay in step while they read the same numbers and operators.
proof fn lemma_eval_state_shift<T>(
    n1: Seq<T>,
    o1: Seq<char>,
    n2: Seq<T>,
    o2: Seq<char>,
    s0: nat,
    j: nat,
    times: spec_fn(T, T) -> T,
    divide: spec_fn(T, T) -> Option<T>,
    plus: spec_fn(T, T) -> T,
    minus: spec_fn(T, T) -> T,
)
    requires
        1 <= s0 <= j,
        eval_state(n1, o1, s0, times, divide, plus, minus) == eval_state(
            n2,
            o2,
            (s0 - 1) as nat,
            times,
            divide,
            plus,
            minus,
        ),
        forall|k: int| s0 < k <= j ==> n1[k] == n2[k - 1],
        forall|k: int| s0 <= k < j ==> o1[k] == o2[k - 1],
    ensures
        eval_state(n1, o1, j, times, divide, plus, minus) == eval_state(
            n2,
            o2,
            (j - 1) as nat,
            times,
            divide,
            plus,
            minus,
        ),
    decreases j - s0,
{
    if j > s0 {
        lemma_eval_state_shift(n1, o1, n2, o2, s0, (j - 1) as nat, times, divide, plus, minus);
        assert(n1[j as int] == n2[j - 1]);
        assert(o1[j - 1] == o2[j - 2]);
        assert((j - 1) as nat - 1 == j - 2);
    }
}

/// A single number evaluates to itself.
pub proof fn lemma_single_number<T>(
    a: T,
    times: spec_fn(T, T) -> T,
    divide: spec_fn(T, T) -> Option<T>,
    plus: spec_fn(T, T) -> T,
    minus: spec_fn(T, T) -> T,
)
    ensures
        eval_expression(seq![a], Seq::<char>::empty(), times, divide, plus, minus) == Some(a),
{
}

/// A multiplication or division that starts a term (it is the first
/// operator, or follows a '+' or '-') can be worked out first: the
/// expression has the value of the one in which its two numbers are replaced
/// by their product or quotient, and fails when the division is refused.
/// So an 'X' multiplies and a '/' divides the term built so far, whatever
/// operators came before it, and terms are built from left to right.
pub proof fn lemma_term_start_contracts<T>(
    nums: Seq<T>,
    ops: Seq<char>,
    i: int,
    times: spec_fn(T, T) -> T,
    divide: spec_fn(T, T) -> Option<T>,
    plus: spec_fn(T, T) -> T,
    minus: spec_fn(T, T) -> T,
)
    requires
        nums.len() == ops.len() + 1,
        0 <= i < ops.len(),
        ops[i] == 'X' || ops[i] == '/',
        i == 0 || ops[i - 1] == '+' || ops[i - 1] == '-',
    ensures
        ops[i] == 'X' ==> eval_expression(nums, ops, times, divide, plus, minus) == eval_expression(
            merge_at(nums, i, times(nums[i], nums[i + 1])),
            drop_op(ops, i),
            times,
            divide,
            plus,
            minus,
        ),
        ops[i] == '/' ==> eval_expression(nums, ops, times, divide, plus, minus) == (match divide(
            nums[i],
            nums[i + 1],
        ) {
            Some(q) => eval_expression(merge_at(nums, i, q), drop_op(ops, i), times, divide, plus, minus),
            None => None,
        }),
{
    let refused = ops[i] == '/' && divide(nums[i], nums[i + 1]) is None;
    let v = if ops[i] == 'X' {
        times(nums[i], nums[i + 1])
    } else {
        match divide(nums[i], nums[i + 1]) {
            Some(q) => q,
            None => nums[i],
        }
    };
    let n2 = merge_at(nums, i, v);
    let o2 = drop_op(ops, i);
    let len = ops.len();
    assert(n2.len() == nums.len() - 1);
    assert(o2.len() == len - 1);
    assert forall|k: int| 0 <= k < i implies n2[k] == nums[k] && o2[k] == ops[k] by {}
    assert(n2[i] == v);
    assert forall|k: int| i < k < n2.len() implies n2[k] == nums[k + 1] by {}
    assert forall|k: int| i <= k < o2.len() implies o2[k] == ops[k + 1] by {}
    // the state just before the operator at `i`: its term is `nums[i]`,
    // and the other evaluation reaches the same state with `v` as the term
    let st = eval_state(nums, ops, i as nat, times, divide, plus, minus);
    if i == 0 {
        assert(st == Some((None::<T>, '+', nums[0])));
    } else {
        lemma_eval_state_agree(nums, ops, n2, o2, (i - 1) as nat, times, divide, plus, minus);
        assert(((i as nat) - 1) as nat == i - 1);
    }
    assert(st is Some ==> st.unwrap().2 == nums[i]);
    assert(st is Some ==> eval_state(n2, o2, i as nat, times, divide, plus, minus) == Some(
        (st.unwrap().0, st.unwrap().1, v),
    ));
    assert(st is None ==> eval_state(n2, o2, i as nat, times, divide, plus, minus) is None);
    if st is Some {
        lemma_eval_state_step(nums, ops, i as nat, times, divide, plus, minus);
    } else {
        lemma_failure_persists(nums, ops, i as nat, (i + 1) as nat, times, divide, plus, minus);
    }
    if refused {
        lemma_failure_persists(nums, ops, (i + 1) as nat, len, times, divide, plus, minus);
    } else {
        assert(eval_state(nums, ops, (i + 1) as nat, times, divide, plus, minus) == eval_state(
            n2,
            o2,
            i as nat,
            times,
            divide,
            plus,
            minus,
        ));
        lemma_eval_state_shift(
            nums,
            ops,
            n2,
            o2,
            (i + 1) as nat,
            len,
            times,
            divide,
            plus,
            minus,
        );
    }
}

/// A '+' or '-' that joins the first two numbers, with no multiplication or
/// division right after it, can be worked out first: the expression has
/// the value of the one that starts with the sum or difference of those
/// numbers. Sums and differences are thus taken from the left.
pub proof fn lemma_leading_sum_contracts<T>(
    nums: Seq<T>,
    ops: Seq<char>,
    times: spec_fn(T, T) -> T,
    divide: spec_fn(T, T) -> Option<T>,
    plus: spec_fn(T, T) -> T,
    minus: spec_fn(T, T) -> T,
)
    requires
        nums.len() == ops.len() + 1,
        ops.len() >= 1,
        ops[0] == '+' || ops[0] == '-',
        ops.len() == 1 || ops[1] == '+' || ops[1] == '-',
    ensures
        eval_expression(nums, ops, times, divide, plus, minus) == eval_expression(
            merge_at(
                nums,
                0,
                if ops[0] == '+' {
                    plus(nums[0], nums[1])
                } else {
                    minus(nums[0], nums[1])
                },
            ),
            drop_op(ops, 0),
            times,
            divide,
            plus,
            minus,
        ),
{
    let v = if ops[0] == '+' {
        plus(nums[0], nums[1])
    } else {
        minus(nums[0], nums[1])
    };
    let n2 = merge_at(nums, 0, v);
    let o2 = drop_op(ops, 0);
    let len = ops.len();
    assert(n2.len() == nums.len() - 1);
    assert(o2.len() == len - 1);
    assert(n2[0] == v);
    assert forall|k: int| 0 < k < n2.len() implies n2[k] == nums[k + 1] by {}
    assert forall|k: int| 0 <= k < o2.len() implies o2[k] == ops[k + 1] by {}
    assert(eval_state(nums, ops, 0, times, divide, plus, minus) == Some((None::<T>, '+', nums[0])));
    lemma_eval_state_step(nums, ops, 0, times, divide, plus, minus);
    assert(eval_state(nums, ops, 1, times, divide, plus, minus) == Some(
        (Some(nums[0]), ops[0], nums[1]),
    ));
    assert(eval_state(n2, o2, 0, times, divide, plus, minus) == Some((None::<T>, '+', v)));
    if len > 1 {
        lemma_eval_state_step(nums, ops, 1, times, divide, plus, minus);
        lemma_eval_state_step(n2, o2, 0, times, divide, plus, minus);
        assert(eval_state(nums, ops, 2, times, divide, plus, minus) == eval_state(
            n2,
            o2,
            1,
            times,
            divide,
            plus,
            minus,
        ));
        lemma_eval_state_shift(nums, ops, n2, o2, 2, len, times, divide, plus, minus);
    }
}

} // verus!
