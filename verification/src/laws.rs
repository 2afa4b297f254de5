use vstd::prelude::*;

use crate::bytecode::OpCode;
use crate::compiler::{arith_op, code_ops, compare_op, counter_step_code};
use crate::natives::RuntimeError;
use crate::tokens::TokenType;
use crate::value::ValueModel;
use crate::vm::{pure_step, FrameState};

verus! {

/// Runs instructions that touch only the current frame one after another, as the machine
/// does; `None` where one of them fails or is not such an instruction.
pub open spec fn run_ops(ops: Seq<OpCode>, s: FrameState) -> Option<FrameState>
    decreases ops.len(),
{
    if ops.len() == 0 {
        Some(s)
    } else {
        match pure_step(ops[0], None, s) {
            Some(Ok(s1)) => run_ops(ops.drop_first(), s1),
            _ => None,
        }
    }
}

/// The code that `continue` (and the end of the body) leaves in a `for` loop moves the
/// counter on by the step exactly once: run on a frame whose counter holds `c` and whose
/// step holds `d`, it leaves `c + d` in the counter (and on top of the stack), and every
/// other slot as it was.
pub proof fn law_counter_steps_once(counter: usize, step: usize, line: u32, s: FrameState, c: i64, d: i64)
    requires
        counter < s.stack.len(),
        step < s.stack.len(),
        counter != step,
        s.stack[counter as int] == ValueModel::Int(c),
        s.stack[step as int] == ValueModel::Int(d),
        i64::MIN <= c + d <= i64::MAX,
    ensures
        run_ops(code_ops(counter_step_code(counter, step, line)), s) == Some(
            FrameState {
                stack: s.stack.update(counter as int, ValueModel::Int((c + d) as i64)).push(ValueModel::Int((c + d) as i64)),
                ..s
            },
        ),
{
    let ops = code_ops(counter_step_code(counter, step, line));
    assert(ops =~= seq![OpCode::VAR_CALL(counter), OpCode::VAR_CALL(step), OpCode::ADD_INT, OpCode::VAR_SET(counter)]);
    let s1 = FrameState { stack: s.stack.push(ValueModel::Int(c)), ..s };
    let s2 = FrameState { stack: s1.stack.push(ValueModel::Int(d)), ..s };
    let s3 = FrameState { stack: s.stack.push(ValueModel::Int((c + d) as i64)), ..s };
    let s4 = FrameState {
        stack: s.stack.update(counter as int, ValueModel::Int((c + d) as i64)).push(ValueModel::Int((c + d) as i64)),
        ..s
    };
    assert(pure_step(ops[0], None, s) == Some(Ok::<FrameState, crate::natives::RuntimeError>(s1)));
    assert(pure_step(ops[1], None, s1) == Some(Ok::<FrameState, crate::natives::RuntimeError>(s2)));
    assert(s2.stack.drop_last().drop_last() =~= s.stack);
    assert(pure_step(ops[2], None, s2) == Some(Ok::<FrameState, crate::natives::RuntimeError>(s3)));
    assert(s3.stack.update(counter as int, ValueModel::Int((c + d) as i64)) =~= s4.stack);
    assert(pure_step(ops[3], None, s3) == Some(Ok::<FrameState, crate::natives::RuntimeError>(s4)));
    let o3 = ops.drop_first().drop_first().drop_first();
    assert(o3 =~= seq![OpCode::VAR_SET(counter)]);
    assert(o3.drop_first() =~= Seq::<OpCode>::empty());
    assert(run_ops(o3.drop_first(), s4) == Some(s4));
    assert(run_ops(o3, s3) == Some(s4));
    assert(run_ops(ops.drop_first().drop_first(), s2) == Some(s4));
    assert(run_ops(ops.drop_first(), s1) == Some(s4));
}

/// A comparison of two integers compiles to an instruction that, run with the left operand
/// below the right one, leaves exactly the truth of that comparison: `l > r` is true only
/// where `l` is greater (so `x > x` is false), `l >= r` where it is not smaller, and so on.
pub proof fn law_int_comparison(op: TokenType, l: i64, r: i64, s: FrameState)
    requires
        compare_op(op, TokenType::INT) is Some,
    ensures
        ({
            let st = FrameState { stack: s.stack.push(ValueModel::Int(l)).push(ValueModel::Int(r)), ..s };
            let result = |b: bool| Some(Ok::<FrameState, crate::natives::RuntimeError>(FrameState { stack: s.stack.push(ValueModel::Bool(b)), ..s }));
            let ran = pure_step(compare_op(op, TokenType::INT).unwrap(), None, st);
            &&& op == TokenType::EQ_EQ ==> ran == result(l == r)
            &&& op == TokenType::INTERJ_EQ ==> ran == result(l != r)
            &&& op == TokenType::GREATER ==> ran == result(l > r)
            &&& op == TokenType::GREATER_EQ ==> ran == result(l >= r)
            &&& op == TokenType::LESS ==> ran == result(l < r)
            &&& op == TokenType::LESS_EQ ==> ran == result(l <= r)
        }),
{
    let st = FrameState { stack: s.stack.push(ValueModel::Int(l)).push(ValueModel::Int(r)), ..s };
    assert(st.stack.drop_last().drop_last() =~= s.stack);
}

/// An arithmetic operator on two integers compiles to an instruction that, run with the
/// left operand below the right one, leaves their sum, difference or product where it fits
/// and fails with an overflow where it does not; division and remainder of non-negative
/// numbers give the quotient and the remainder, and dividing by zero fails.
pub proof fn law_int_arithmetic(op: TokenType, l: i64, r: i64, s: FrameState)
    requires
        arith_op(op, TokenType::INT) is Some,
    ensures
        ({
            let st = FrameState { stack: s.stack.push(ValueModel::Int(l)).push(ValueModel::Int(r)), ..s };
            let result = |x: int| Some(Ok::<FrameState, RuntimeError>(FrameState { stack: s.stack.push(ValueModel::Int(x as i64)), ..s }));
            let overflow = Some(Err::<FrameState, RuntimeError>(RuntimeError::Overflow));
            let ran = pure_step(arith_op(op, TokenType::INT).unwrap(), None, st);
            let fits = |x: int| i64::MIN <= x <= i64::MAX;
            &&& op == TokenType::PLUS ==> ran == if fits(l + r) { result(l + r) } else { overflow }
            &&& op == TokenType::MINUS ==> ran == if fits(l - r) { result(l - r) } else { overflow }
            &&& op == TokenType::STAR ==> ran == if fits(l * r) { result(l * r) } else { overflow }
            &&& (op == TokenType::SLASH || op == TokenType::MOD) && r == 0 ==> ran == Some(
                Err::<FrameState, RuntimeError>(RuntimeError::DivisionByZero),
            )
            &&& op == TokenType::SLASH && l >= 0 && r > 0 ==> ran == result((l as int) / (r as int))
            &&& op == TokenType::MOD && l >= 0 && r > 0 ==> ran == result((l as int) % (r as int))
        }),
{
    let st = FrameState { stack: s.stack.push(ValueModel::Int(l)).push(ValueModel::Int(r)), ..s };
    assert(st.stack.drop_last().drop_last() =~= s.stack);
    if l >= 0 && r > 0 {
        assert(0 <= l / r <= l) by (nonlinear_arith)
            requires
                l >= 0,
                r > 0,
        ;
    }
}

/// A comparison of two booleans compiles to an instruction that leaves whether they are
/// equal (for `==`) or different (for `!=`); no other comparison of booleans compiles.
pub proof fn law_bool_comparison(op: TokenType, l: bool, r: bool, s: FrameState)
    ensures
        ({
            let st = FrameState { stack: s.stack.push(ValueModel::Bool(l)).push(ValueModel::Bool(r)), ..s };
            let result = |b: bool| Some(Ok::<FrameState, crate::natives::RuntimeError>(FrameState { stack: s.stack.push(ValueModel::Bool(b)), ..s }));
            let ran = pure_step(compare_op(op, TokenType::BOOL).unwrap(), None, st);
            &&& compare_op(op, TokenType::BOOL) is Some <==> (op == TokenType::EQ_EQ || op == TokenType::INTERJ_EQ)
            &&& op == TokenType::EQ_EQ ==> ran == result(l == r)
            &&& op == TokenType::INTERJ_EQ ==> ran == result(l != r)
        }),
{
    let st = FrameState { stack: s.stack.push(ValueModel::Bool(l)).push(ValueModel::Bool(r)), ..s };
    assert(st.stack.drop_last().drop_last() =~= s.stack);
}

} // verus!
