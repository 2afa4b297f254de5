use vstd::prelude::*;

use crate::value::{Value, ValueModel};
use crate::bytecode::{Chunk, Instruction, OpCode};
use crate::objects::{NativeFunction, StructInstance};
use crate::rc::{
    decremented, incremented, kinds, lemma_others_kept_trans, lemma_recounted_keeps, others_kept, models, recounted_or_freed, slot_of, sweep, EmptyObject, HeapObject, ReferenceCounter,
    SlotModel,
};
use crate::natives::{
    abs_int, abs_int_gives, conv_to_int, conv_to_int_gives, conv_to_string, conv_to_string_gives, fits_i64, max_int,
    max_int_gives, min_int, min_int_gives, pow_int, pow_int_gives, sqrt_int, sqrt_int_gives, str_count,
    str_count_gives, str_find, str_find_gives, str_get, str_get_gives, str_is_char, str_is_char_gives, str_is_digit,
    str_is_digit_gives, str_len, str_len_gives, str_replace, str_replace_gives, str_to_lower, str_to_lower_gives,
    str_to_upper, str_to_upper_gives, str_trim, str_trim_gives, str_trim_left, str_trim_left_gives, str_trim_right,
    str_trim_right_gives, RuntimeError,
};

verus! {

/// Integer division rounding toward zero, as Rust's `/` does.
pub open spec fn trunc_div(b: int, a: int) -> int {
    let q = (if b < 0 { -b } else { b }) / (if a < 0 { -a } else { a });
    if (b < 0) == (a < 0) {
        q
    } else {
        -q
    }
}

/// The remainder of Euclidean division, never negative, as Rust's `rem_euclid` gives it.
pub open spec fn euclid_rem(b: int, a: int) -> int {
    let m = (if b < 0 { -b } else { b }) % (if a < 0 { -a } else { a });
    if b >= 0 || m == 0 {
        m
    } else {
        (if a < 0 { -a } else { a }) - m
    }
}

/// What an integer instruction makes of `b` (the deeper operand) and `a` (the top one).
pub open spec fn int_result(op: OpCode, b: i64, a: i64) -> Result<ValueModel, RuntimeError> {
    match op {
        OpCode::ADD_INT => if fits_i64(b + a) {
            Ok(ValueModel::Int((b + a) as i64))
        } else {
            Err(RuntimeError::Overflow)
        },
        OpCode::SUB_INT => if fits_i64(b - a) {
            Ok(ValueModel::Int((b - a) as i64))
        } else {
            Err(RuntimeError::Overflow)
        },
        OpCode::MUL_INT => if fits_i64(b * a) {
            Ok(ValueModel::Int((b * a) as i64))
        } else {
            Err(RuntimeError::Overflow)
        },
        OpCode::DIV_INT => if a == 0 {
            Err(RuntimeError::DivisionByZero)
        } else if fits_i64(trunc_div(b as int, a as int)) {
            Ok(ValueModel::Int(trunc_div(b as int, a as int) as i64))
        } else {
            Err(RuntimeError::Overflow)
        },
        OpCode::MOD_INT => if a == 0 {
            Err(RuntimeError::DivisionByZero)
        } else if b == i64::MIN && a == -1 {
            Err(RuntimeError::Overflow)
        } else {
            Ok(ValueModel::Int(euclid_rem(b as int, a as int) as i64))
        },
        OpCode::EQ_INT => Ok(ValueModel::Bool(a == b)),
        OpCode::NEG_EQ_INT => Ok(ValueModel::Bool(a != b)),
        OpCode::GREATER_INT => Ok(ValueModel::Bool(b > a)),
        OpCode::EQ_GREATER_INT => Ok(ValueModel::Bool(b >= a)),
        OpCode::LESS_INT => Ok(ValueModel::Bool(b < a)),
        OpCode::EQ_LESS_INT => Ok(ValueModel::Bool(b <= a)),
        _ => Err(RuntimeError::BadInstruction),
    }
}

/// Whether `op` is one of the integer instructions of `int_result`.
pub open spec fn is_int_op(op: OpCode) -> bool {
    ||| op == OpCode::ADD_INT
    ||| op == OpCode::SUB_INT
    ||| op == OpCode::MUL_INT
    ||| op == OpCode::DIV_INT
    ||| op == OpCode::MOD_INT
    ||| op == OpCode::EQ_INT
    ||| op == OpCode::NEG_EQ_INT
    ||| op == OpCode::GREATER_INT
    ||| op == OpCode::EQ_GREATER_INT
    ||| op == OpCode::LESS_INT
    ||| op == OpCode::EQ_LESS_INT
}

fn abs_u128(x: i64) -> (r: u128)
    ensures
        r == (if x < 0 { -(x as int) } else { x as int }),
{
    if x < 0 {
        ((-(x as i128)) as u128)
    } else {
        x as u128
    }
}

/// Computes `int_result`.
pub fn int_op(op: &OpCode, b: i64, a: i64) -> (r: Result<Value, RuntimeError>)
    requires
        is_int_op(*op),
    ensures
        match int_result(*op, b, a) {
            Ok(v) => r matches Ok(w) && w@ == v,
            Err(e) => r == Err::<Value, RuntimeError>(e),
        },
{
    let wb = b as i128;
    let wa = a as i128;
    match op {
        OpCode::ADD_INT | OpCode::SUB_INT | OpCode::MUL_INT => {
            let w: i128 = match op {
                OpCode::ADD_INT => wb + wa,
                OpCode::SUB_INT => wb - wa,
                _ => {
                    assert(-9223372036854775808 * 9223372036854775808 <= wb * wa <= 9223372036854775808 * 9223372036854775808) by (nonlinear_arith)
                        requires
                            -9223372036854775808 <= wb <= 9223372036854775807,
                            -9223372036854775808 <= wa <= 9223372036854775807,
                    ;
                    wb * wa
                },
            };
            if w < -9223372036854775808i128 || w > 9223372036854775807i128 {
                Err(RuntimeError::Overflow)
            } else {
                Ok(Value::Int(w as i64))
            }
        },
        OpCode::DIV_INT | OpCode::MOD_INT => {
            if a == 0 {
                return Err(RuntimeError::DivisionByZero);
            }
            let ub = abs_u128(b);
            let ua = abs_u128(a);
            match op {
                OpCode::DIV_INT => {
                    let q = ub / ua;
                    assert(q <= ub) by (nonlinear_arith)
                        requires
                            ua >= 1,
                            q == ub / ua,
                    ;
                    let negative = (b < 0) != (a < 0);
                    if !negative && q > 9223372036854775807u128 {
                        return Err(RuntimeError::Overflow);
                    }
                    let w: i128 = if negative { -(q as i128) } else { q as i128 };
                    Ok(Value::Int(w as i64))
                },
                _ => {
                    if b == i64::MIN && a == -1 {
                        return Err(RuntimeError::Overflow);
                    }
                    let m = ub % ua;
                    let w: u128 = if b >= 0 || m == 0 { m } else { ua - m };
                    assert(w < ua);
                    Ok(Value::Int(w as i64))
                },
            }
        },
        OpCode::EQ_INT => Ok(Value::Bool(a == b)),
        OpCode::NEG_EQ_INT => Ok(Value::Bool(a != b)),
        OpCode::GREATER_INT => Ok(Value::Bool(b > a)),
        OpCode::EQ_GREATER_INT => Ok(Value::Bool(b >= a)),
        OpCode::LESS_INT => Ok(Value::Bool(b < a)),
        _ => Ok(Value::Bool(b <= a)),
    }
}


/// Pushes `v` on a stack.
pub fn stack_push(s: &mut Vec<Value>, v: Value)
    ensures
        models(final(s)@) == models(old(s)@).push(v@),
{
    let ghost m = v@;
    s.push(v);
    assert(models(s@) =~= models(old(s)@).push(m));
}

/// Pops the top of a stack; `None` where it is empty (which leaves it as it is).
pub fn stack_pop(s: &mut Vec<Value>) -> (r: Option<Value>)
    ensures
        old(s)@.len() == 0 ==> r is None && final(s)@ == old(s)@,
        old(s)@.len() > 0 ==> (r matches Some(v) && v@ == models(old(s)@).last() && models(final(s)@) == models(
            old(s)@,
        ).drop_last() && final(s)@.len() == old(s)@.len() - 1),
{
    let r = s.pop();
    proof {
        if old(s)@.len() > 0 {
            assert(models(s@) =~= models(old(s)@).drop_last());
        }
    }
    r
}

/// A copy of the value at `i` of a stack.
pub fn stack_get(s: &Vec<Value>, i: usize) -> (r: Value)
    requires
        i < s@.len(),
    ensures
        r@ == models(s@)[i as int],
{
    s[i].copy()
}

/// Puts `v` at `i` of a stack.
pub fn stack_set(s: &mut Vec<Value>, i: usize, v: Value)
    requires
        i < old(s)@.len(),
    ensures
        models(final(s)@) == models(old(s)@).update(i as int, v@),
        final(s)@.len() == old(s)@.len(),
{
    let ghost m = v@;
    s.set(i, v);
    assert(models(s@) =~= models(old(s)@).update(i as int, m));
}

/// Where a frame's code lives: a function on the heap, or a method of a struct on the heap.
#[derive(Debug, Clone, Copy, PartialEq, Eq, Structural)]
pub enum CodeRef {
    Function(usize),
    Method(usize, usize),
}

/// A call in progress: where its code is, its stack, and the position of its next
/// instruction.
pub struct Frame {
    pub code: CodeRef,
    pub stack: Vec<Value>,
    pub ip: usize,
}

/// What the instructions that touch only the current frame see and change: its stack, its
/// instruction position, and whether a `break` is pending.
pub struct FrameState {
    pub stack: Seq<ValueModel>,
    pub ip: int,
    pub break_loop: bool,
}

impl Frame {
    pub open spec fn state(&self, break_loop: bool) -> FrameState {
        FrameState { stack: models(self.stack@), ip: self.ip as int, break_loop }
    }
}

/// Whether `op` is a constant instruction.
pub open spec fn is_constant_op(op: OpCode) -> bool {
    op is CONSTANT_FLOAT || op is CONSTANT_INT || op is CONSTANT_BOOL || op is CONSTANT_NULL
}

/// What an instruction that touches only the current frame does to it; `None` for the
/// other instructions (and for negating a float, whose work is done outside). `konst` is the
/// constant a constant instruction names, where its chunk has one there.
pub open spec fn pure_step(op: OpCode, konst: Option<ValueModel>, s: FrameState) -> Option<Result<FrameState, RuntimeError>> {
    let n = s.stack.len();
    if is_constant_op(op) {
        Some(
            match konst {
                Some(v) => Ok(FrameState { stack: s.stack.push(v), ..s }),
                None => Err(RuntimeError::IndexOutOfRange),
            },
        )
    } else if is_int_op(op) {
        Some(
            if n == 0 {
                Err(RuntimeError::StackUnderflow)
            } else if !(s.stack[n - 1] is Int) {
                Err(RuntimeError::UnsupportedType)
            } else if n == 1 {
                Err(RuntimeError::StackUnderflow)
            } else if !(s.stack[n - 2] is Int) {
                Err(RuntimeError::UnsupportedType)
            } else {
                match int_result(op, s.stack[n - 2]->Int_0, s.stack[n - 1]->Int_0) {
                    Ok(v) => Ok(FrameState { stack: s.stack.drop_last().drop_last().push(v), ..s }),
                    Err(e) => Err(e),
                }
            },
        )
    } else {
        match op {
            OpCode::EQ_BOOL | OpCode::NEG_EQ_BOOL => Some(
                if n == 0 {
                    Err(RuntimeError::StackUnderflow)
                } else if !(s.stack[n - 1] is Bool) {
                    Err(RuntimeError::UnsupportedType)
                } else if n == 1 {
                    Err(RuntimeError::StackUnderflow)
                } else if !(s.stack[n - 2] is Bool) {
                    Err(RuntimeError::UnsupportedType)
                } else {
                    let same = s.stack[n - 2]->Bool_0 == s.stack[n - 1]->Bool_0;
                    let v = if op is EQ_BOOL { same } else { !same };
                    Ok(FrameState { stack: s.stack.drop_last().drop_last().push(ValueModel::Bool(v)), ..s })
                },
            ),
            OpCode::NEGATE => if n == 0 {
                Some(Err(RuntimeError::StackUnderflow))
            } else {
                match s.stack[n - 1] {
                    ValueModel::Int(v) => Some(
                        if v == i64::MIN {
                            Err(RuntimeError::Overflow)
                        } else {
                            Ok(FrameState { stack: s.stack.drop_last().push(ValueModel::Int((-v) as i64)), ..s })
                        },
                    ),
                    ValueModel::Bool(b) => Some(
                        Ok(FrameState { stack: s.stack.drop_last().push(ValueModel::Bool(!b)), ..s }),
                    ),
                    ValueModel::Float(_) => None,
                    _ => Some(Err(RuntimeError::UnsupportedType)),
                }
            },
            OpCode::POP => Some(Ok(if n == 0 { s } else { FrameState { stack: s.stack.drop_last(), ..s } })),
            OpCode::VAR_CALL(i) | OpCode::GET_INSTANCE_RF(i) | OpCode::GET_LIST(i) => Some(
                if i < n {
                    Ok(FrameState { stack: s.stack.push(s.stack[i as int]), ..s })
                } else {
                    Err(RuntimeError::IndexOutOfRange)
                },
            ),
            OpCode::VAR_SET(i) => Some(
                if n == 0 {
                    Err(RuntimeError::StackUnderflow)
                } else if i >= n {
                    Err(RuntimeError::IndexOutOfRange)
                } else {
                    Ok(FrameState { stack: s.stack.update(i as int, s.stack[n - 1]), ..s })
                },
            ),
            OpCode::PUSH_STACK(v) => Some(Ok(FrameState { stack: s.stack.push(v@), ..s })),
            OpCode::JUMP(o) => Some(
                if s.ip + o <= usize::MAX {
                    Ok(FrameState { ip: s.ip + o, ..s })
                } else {
                    Err(RuntimeError::CodeOutOfRange)
                },
            ),
            OpCode::LOOP(o) => Some(
                if o <= s.ip {
                    Ok(FrameState { ip: s.ip - o, ..s })
                } else {
                    Err(RuntimeError::CodeOutOfRange)
                },
            ),
            OpCode::BREAK => Some(Ok(FrameState { break_loop: true, ..s })),
            OpCode::IF_STMT_OFFSET(o) => Some(
                if n == 0 {
                    Err(RuntimeError::StackUnderflow)
                } else if !(s.stack[n - 1] is Bool) {
                    Err(RuntimeError::UnsupportedType)
                } else if !s.stack[n - 1]->Bool_0 || s.break_loop {
                    if s.ip + o <= usize::MAX {
                        Ok(FrameState { ip: s.ip + o, break_loop: false, ..s })
                    } else {
                        Err(RuntimeError::CodeOutOfRange)
                    }
                } else {
                    Ok(s)
                },
            ),
            OpCode::DEC_TO(_) => Some(Ok(s)),
            _ => None,
        }
    }
}

/// Runs an instruction that touches only `frame` (and the pending `break`); `None`, with
/// nothing changed, for any other instruction.
pub fn exec_pure(frame: &mut Frame, break_loop: &mut bool, op: &OpCode, konst: Option<Value>) -> (r: Option<
    Result<(), RuntimeError>,
>)
    ensures
        final(frame).code == old(frame).code,
        match pure_step(*op, match konst { Some(v) => Some(v@), None => None }, old(frame).state(*old(break_loop))) {
            Some(Ok(s2)) => r == Some(Ok::<(), RuntimeError>(())) && final(frame).state(*final(break_loop)) == s2,
            Some(Err(e)) => r == Some(Err::<(), RuntimeError>(e)),
            None => r is None && *final(frame) == *old(frame) && *final(break_loop) == *old(break_loop),
        },
{
    let n = frame.stack.len();
    match op {
        OpCode::CONSTANT_FLOAT(_) | OpCode::CONSTANT_INT(_) | OpCode::CONSTANT_BOOL(_) | OpCode::CONSTANT_NULL(_) => {
            match konst {
                Some(v) => {
                    stack_push(&mut frame.stack, v);
                    Some(Ok(()))
                },
                None => Some(Err(RuntimeError::IndexOutOfRange)),
            }
        },
        OpCode::ADD_INT | OpCode::SUB_INT | OpCode::MUL_INT | OpCode::DIV_INT | OpCode::MOD_INT | OpCode::EQ_INT
        | OpCode::NEG_EQ_INT | OpCode::GREATER_INT | OpCode::EQ_GREATER_INT | OpCode::LESS_INT
        | OpCode::EQ_LESS_INT => {
            if n == 0 {
                return Some(Err(RuntimeError::StackUnderflow));
            }
            let a = match &frame.stack[n - 1] {
                Value::Int(a) => *a,
                _ => {
                    return Some(Err(RuntimeError::UnsupportedType));
                },
            };
            if n == 1 {
                return Some(Err(RuntimeError::StackUnderflow));
            }
            let b = match &frame.stack[n - 2] {
                Value::Int(b) => *b,
                _ => {
                    return Some(Err(RuntimeError::UnsupportedType));
                },
            };
            let v = match int_op(op, b, a) {
                Ok(v) => v,
                Err(e) => {
                    return Some(Err(e));
                },
            };
            let _ = stack_pop(&mut frame.stack);
            let _ = stack_pop(&mut frame.stack);
            stack_push(&mut frame.stack, v);
            Some(Ok(()))
        },
        OpCode::EQ_BOOL | OpCode::NEG_EQ_BOOL => {
            if n == 0 {
                return Some(Err(RuntimeError::StackUnderflow));
            }
            let a = match &frame.stack[n - 1] {
                Value::Bool(a) => *a,
                _ => {
                    return Some(Err(RuntimeError::UnsupportedType));
                },
            };
            if n == 1 {
                return Some(Err(RuntimeError::StackUnderflow));
            }
            let b = match &frame.stack[n - 2] {
                Value::Bool(b) => *b,
                _ => {
                    return Some(Err(RuntimeError::UnsupportedType));
                },
            };
            let same = a == b;
            let v = match op {
                OpCode::EQ_BOOL => same,
                _ => !same,
            };
            let _ = stack_pop(&mut frame.stack);
            let _ = stack_pop(&mut frame.stack);
            stack_push(&mut frame.stack, Value::Bool(v));
            Some(Ok(()))
        },
        OpCode::NEGATE => {
            if n == 0 {
                return Some(Err(RuntimeError::StackUnderflow));
            }
            let v = match &frame.stack[n - 1] {
                Value::Int(v) => {
                    if *v == i64::MIN {
                        return Some(Err(RuntimeError::Overflow));
                    }
                    Value::Int(-*v)
                },
                Value::Bool(b) => Value::Bool(!*b),
                Value::Float(_) => {
                    return None;
                },
                _ => {
                    return Some(Err(RuntimeError::UnsupportedType));
                },
            };
            let _ = stack_pop(&mut frame.stack);
            stack_push(&mut frame.stack, v);
            Some(Ok(()))
        },
        OpCode::POP => {
            let _ = stack_pop(&mut frame.stack);
            Some(Ok(()))
        },
        OpCode::VAR_CALL(i) | OpCode::GET_INSTANCE_RF(i) | OpCode::GET_LIST(i) => {
            if *i >= n {
                return Some(Err(RuntimeError::IndexOutOfRange));
            }
            let v = stack_get(&frame.stack, *i);
            stack_push(&mut frame.stack, v);
            Some(Ok(()))
        },
        OpCode::VAR_SET(i) => {
            if n == 0 {
                return Some(Err(RuntimeError::StackUnderflow));
            }
            if *i >= n {
                return Some(Err(RuntimeError::IndexOutOfRange));
            }
            let v = stack_get(&frame.stack, n - 1);
            stack_set(&mut frame.stack, *i, v);
            Some(Ok(()))
        },
        OpCode::PUSH_STACK(v) => {
            stack_push(&mut frame.stack, v.copy());
            Some(Ok(()))
        },
        OpCode::JUMP(o) => {
            if frame.ip > usize::MAX - *o {
                return Some(Err(RuntimeError::CodeOutOfRange));
            }
            frame.ip = frame.ip + *o;
            Some(Ok(()))
        },
        OpCode::LOOP(o) => {
            if *o > frame.ip {
                return Some(Err(RuntimeError::CodeOutOfRange));
            }
            frame.ip = frame.ip - *o;
            Some(Ok(()))
        },
        OpCode::BREAK => {
            *break_loop = true;
            Some(Ok(()))
        },
        OpCode::IF_STMT_OFFSET(o) => {
            if n == 0 {
                return Some(Err(RuntimeError::StackUnderflow));
            }
            let b = match &frame.stack[n - 1] {
                Value::Bool(b) => *b,
                _ => {
                    return Some(Err(RuntimeError::UnsupportedType));
                },
            };
            if !b || *break_loop {
                if frame.ip > usize::MAX - *o {
                    return Some(Err(RuntimeError::CodeOutOfRange));
                }
                frame.ip = frame.ip + *o;
                *break_loop = false;
            }
            Some(Ok(()))
        },
        OpCode::DEC_TO(_) => Some(Ok(())),
        _ => None,
    }
}


/// The values and count of an instance.
pub open spec fn instance_view(i: StructInstance) -> (Seq<ValueModel>, usize) {
    (models(i.fields_values@), i.rc_counter)
}

/// Whether `a` is a copy of `b`: equal, but for the values an instruction carries, which
/// are equal in view; declarations have no copy.
pub open spec fn same_op(a: OpCode, b: OpCode) -> bool {
    match (a, b) {
        (OpCode::PUSH_STACK(x), OpCode::PUSH_STACK(y)) => x@ == y@,
        (OpCode::INSTANCE_DEC(x, n), OpCode::INSTANCE_DEC(y, m)) => n == m && instance_view(x) == instance_view(y),
        (OpCode::STRING_DEC(x), OpCode::STRING_DEC(y)) => instance_view(x) == instance_view(y),
        (OpCode::STRING_DEC_VALUE(x), OpCode::STRING_DEC_VALUE(y)) => instance_view(x) == instance_view(y),
        (OpCode::FUNCTION_DEC(_), _) | (OpCode::STRUCT_DEC(_), _) => false,
        _ => a == b,
    }
}

/// A copy of an instance.
pub fn copy_instance(i: &StructInstance) -> (r: StructInstance)
    ensures
        instance_view(r) == instance_view(*i),
{
    let mut fields: Vec<Value> = Vec::new();
    let mut k: usize = 0;
    while k < i.fields_values.len()
        invariant
            k <= i.fields_values@.len(),
            models(fields@) == models(i.fields_values@).take(k as int),
        decreases i.fields_values@.len() - k,
    {
        stack_push(&mut fields, i.fields_values[k].copy());
        k = k + 1;
        assert(models(fields@) =~= models(i.fields_values@).take(k as int));
    }
    assert(models(i.fields_values@).take(k as int) =~= models(i.fields_values@));
    StructInstance { fields_values: fields, rc_counter: i.rc_counter }
}

/// A copy of an instruction's operation; `None` for a declaration, which has none.
pub fn copy_op(op: &OpCode) -> (r: Option<OpCode>)
    ensures
        r matches Some(c) ==> same_op(c, *op),
        r is None <==> (*op is FUNCTION_DEC || *op is STRUCT_DEC),
{
    match op {
        OpCode::LIST_PUSH => Some(OpCode::LIST_PUSH),
        OpCode::LIST_POP => Some(OpCode::LIST_POP),
        OpCode::LIST_INSERT => Some(OpCode::LIST_INSERT),
        OpCode::LIST_REMOVE => Some(OpCode::LIST_REMOVE),
        OpCode::LIST_LEN => Some(OpCode::LIST_LEN),
        OpCode::LIST_SORT => Some(OpCode::LIST_SORT),
        OpCode::BREAK => Some(OpCode::BREAK),
        OpCode::POP => Some(OpCode::POP),
        OpCode::POP_UNUSED => Some(OpCode::POP_UNUSED),
        OpCode::RF_REMOVE => Some(OpCode::RF_REMOVE),
        OpCode::EQ_BOOL => Some(OpCode::EQ_BOOL),
        OpCode::NEG_EQ_BOOL => Some(OpCode::NEG_EQ_BOOL),
        OpCode::ADD_FLOAT => Some(OpCode::ADD_FLOAT),
        OpCode::SUB_FLOAT => Some(OpCode::SUB_FLOAT),
        OpCode::MUL_FLOAT => Some(OpCode::MUL_FLOAT),
        OpCode::DIV_FLOAT => Some(OpCode::DIV_FLOAT),
        OpCode::MOD_FLOAT => Some(OpCode::MOD_FLOAT),
        OpCode::EQ_FLOAT => Some(OpCode::EQ_FLOAT),
        OpCode::NEG_EQ_FLOAT => Some(OpCode::NEG_EQ_FLOAT),
        OpCode::GREATER_FLOAT => Some(OpCode::GREATER_FLOAT),
        OpCode::EQ_GREATER_FLOAT => Some(OpCode::EQ_GREATER_FLOAT),
        OpCode::LESS_FLOAT => Some(OpCode::LESS_FLOAT),
        OpCode::EQ_LESS_FLOAT => Some(OpCode::EQ_LESS_FLOAT),
        OpCode::ADD_INT => Some(OpCode::ADD_INT),
        OpCode::SUB_INT => Some(OpCode::SUB_INT),
        OpCode::MUL_INT => Some(OpCode::MUL_INT),
        OpCode::DIV_INT => Some(OpCode::DIV_INT),
        OpCode::MOD_INT => Some(OpCode::MOD_INT),
        OpCode::EQ_INT => Some(OpCode::EQ_INT),
        OpCode::NEG_EQ_INT => Some(OpCode::NEG_EQ_INT),
        OpCode::GREATER_INT => Some(OpCode::GREATER_INT),
        OpCode::EQ_GREATER_INT => Some(OpCode::EQ_GREATER_INT),
        OpCode::LESS_INT => Some(OpCode::LESS_INT),
        OpCode::EQ_LESS_INT => Some(OpCode::EQ_LESS_INT),
        OpCode::ADD_STRING => Some(OpCode::ADD_STRING),
        OpCode::EQ_STRING => Some(OpCode::EQ_STRING),
        OpCode::NEG_EQ_STRING => Some(OpCode::NEG_EQ_STRING),
        OpCode::NEGATE => Some(OpCode::NEGATE),
        OpCode::RETURN => Some(OpCode::RETURN),
        OpCode::END_OF_FN => Some(OpCode::END_OF_FN),
        OpCode::FUNCTION_CALL(a) => Some(OpCode::FUNCTION_CALL(*a)),
        OpCode::NATIVE_FN_CALL(a) => Some(OpCode::NATIVE_FN_CALL(*a)),
        OpCode::GET_INSTANCE_RF(a) => Some(OpCode::GET_INSTANCE_RF(*a)),
        OpCode::GET_LIST(a) => Some(OpCode::GET_LIST(*a)),
        OpCode::GET_LIST_FIELD(a) => Some(OpCode::GET_LIST_FIELD(*a)),
        OpCode::SET_LIST_FIELD(a) => Some(OpCode::SET_LIST_FIELD(*a)),
        OpCode::IF_STMT_OFFSET(a) => Some(OpCode::IF_STMT_OFFSET(*a)),
        OpCode::JUMP(a) => Some(OpCode::JUMP(*a)),
        OpCode::LOOP(a) => Some(OpCode::LOOP(*a)),
        OpCode::VAR_CALL(a) => Some(OpCode::VAR_CALL(*a)),
        OpCode::VAR_SET(a) => Some(OpCode::VAR_SET(*a)),
        OpCode::DEC_RC(a) => Some(OpCode::DEC_RC(*a)),
        OpCode::INC_RC(a) => Some(OpCode::INC_RC(*a)),
        OpCode::DEC_TO(a) => Some(OpCode::DEC_TO(*a)),
        OpCode::CONSTANT_BOOL(a) => Some(OpCode::CONSTANT_BOOL(*a)),
        OpCode::CONSTANT_FLOAT(a) => Some(OpCode::CONSTANT_FLOAT(*a)),
        OpCode::CONSTANT_INT(a) => Some(OpCode::CONSTANT_INT(*a)),
        OpCode::CONSTANT_NULL(a) => Some(OpCode::CONSTANT_NULL(*a)),
        OpCode::IO_FN_CALL(a, b) => Some(OpCode::IO_FN_CALL(*a, *b)),
        OpCode::GET_INSTANCE_FIELD(a, b) => Some(OpCode::GET_INSTANCE_FIELD(*a, *b)),
        OpCode::SET_INSTANCE_FIELD(a, b) => Some(OpCode::SET_INSTANCE_FIELD(*a, *b)),
        OpCode::METHOD_CALL(a, b) => Some(OpCode::METHOD_CALL(*a, *b)),
        OpCode::PUSH_STACK(v) => Some(OpCode::PUSH_STACK(v.copy())),
        OpCode::INSTANCE_DEC(i, n) => Some(OpCode::INSTANCE_DEC(copy_instance(i), *n)),
        OpCode::STRING_DEC(i) => Some(OpCode::STRING_DEC(copy_instance(i))),
        OpCode::STRING_DEC_VALUE(i) => Some(OpCode::STRING_DEC_VALUE(copy_instance(i))),
        OpCode::FUNCTION_DEC(_) | OpCode::STRUCT_DEC(_) => None,
    }
}


/// The float operations the machine hands out.
#[derive(Debug, Clone, Copy, PartialEq, Eq, Structural)]
pub enum FloatOp {
    Add,
    Sub,
    Mul,
    Div,
    Mod,
    Eq,
    NegEq,
    Greater,
    EqGreater,
    Less,
    EqLess,
}

/// The float operation an instruction asks for, where it asks for one.
pub open spec fn float_op_of(op: OpCode) -> Option<FloatOp> {
    match op {
        OpCode::ADD_FLOAT => Some(FloatOp::Add),
        OpCode::SUB_FLOAT => Some(FloatOp::Sub),
        OpCode::MUL_FLOAT => Some(FloatOp::Mul),
        OpCode::DIV_FLOAT => Some(FloatOp::Div),
        OpCode::MOD_FLOAT => Some(FloatOp::Mod),
        OpCode::EQ_FLOAT => Some(FloatOp::Eq),
        OpCode::NEG_EQ_FLOAT => Some(FloatOp::NegEq),
        OpCode::GREATER_FLOAT => Some(FloatOp::Greater),
        OpCode::EQ_GREATER_FLOAT => Some(FloatOp::EqGreater),
        OpCode::LESS_FLOAT => Some(FloatOp::Less),
        OpCode::EQ_LESS_FLOAT => Some(FloatOp::EqLess),
        _ => None,
    }
}

fn float_op(op: &OpCode) -> (r: Option<FloatOp>)
    ensures
        r == float_op_of(*op),
{
    match op {
        OpCode::ADD_FLOAT => Some(FloatOp::Add),
        OpCode::SUB_FLOAT => Some(FloatOp::Sub),
        OpCode::MUL_FLOAT => Some(FloatOp::Mul),
        OpCode::DIV_FLOAT => Some(FloatOp::Div),
        OpCode::MOD_FLOAT => Some(FloatOp::Mod),
        OpCode::EQ_FLOAT => Some(FloatOp::Eq),
        OpCode::NEG_EQ_FLOAT => Some(FloatOp::NegEq),
        OpCode::GREATER_FLOAT => Some(FloatOp::Greater),
        OpCode::EQ_GREATER_FLOAT => Some(FloatOp::EqGreater),
        OpCode::LESS_FLOAT => Some(FloatOp::Less),
        OpCode::EQ_LESS_FLOAT => Some(FloatOp::EqLess),
        _ => None,
    }
}

/// What a float instruction hands out: its operation and the two floats on top of the
/// stack (the deeper one first).
pub open spec fn float_step(op: OpCode, st: Seq<ValueModel>) -> Option<Result<(FloatOp, Seq<char>, Seq<char>), RuntimeError>> {
    let n = st.len();
    match float_op_of(op) {
        Some(fop) => Some(
            if n == 0 {
                Err(RuntimeError::StackUnderflow)
            } else {
                match st[n - 1] {
                    ValueModel::Float(a) => if n == 1 {
                        Err(RuntimeError::StackUnderflow)
                    } else {
                        match st[n - 2] {
                            ValueModel::Float(b) => Ok((fop, b, a)),
                            _ => Err(RuntimeError::UnsupportedType),
                        }
                    },
                    _ => Err(RuntimeError::UnsupportedType),
                }
            },
        ),
        None => None,
    }
}

/// Whether an instruction does nothing when it runs (declarations are done before a run).
pub open spec fn inert(op: OpCode) -> bool {
    op is FUNCTION_DEC || op is STRUCT_DEC || op is END_OF_FN || op is RETURN
}

/// Where a run of the machine stopped.
#[derive(Debug)]
pub enum Outcome {
    /// The step budget ran out; the program goes on.
    Running,
    /// The main function returned.
    Finished,
    /// Two floats (the deeper operand first), taken off the stack, to combine outside this
    /// library; the result goes back with `resume`.
    Float(FloatOp, Vec<char>, Vec<char>),
    /// A float, taken off the stack, to negate outside this library; the result goes back
    /// with `resume`.
    FloatNegate(Vec<char>),
    /// A built-in function whose work is done outside this library (input, output or
    /// floats), with its arguments (strings taken out of their instances); its result goes
    /// back with `finish_call`.
    Call(NativeFunction, Vec<Value>),
}

/// What the machine waits for from outside.
#[derive(Debug, Clone, Copy, PartialEq, Eq, Structural)]
pub enum Pending {
    Nothing,
    Value,
    Call(usize, bool),
}

/// The chunk that a code reference names, where the heap holds one there.
pub open spec fn chunk_at(heap: Seq<HeapObject>, code: CodeRef) -> Option<Chunk> {
    match code {
        CodeRef::Function(h) => if h < heap.len() {
            match heap[h as int] {
                HeapObject::Function(f) => Some(f.chunk),
                _ => None,
            }
        } else {
            None
        },
        CodeRef::Method(h, m) => if h < heap.len() {
            match heap[h as int] {
                HeapObject::Struct(st) => if m < st.methods@.len() {
                    Some(st.methods@[m as int].function.chunk)
                } else {
                    None
                },
                _ => None,
            }
        } else {
            None
        },
    }
}

/// The chunk a code reference names.
fn code_chunk(rc: &ReferenceCounter, code: CodeRef) -> (r: Option<&Chunk>)
    ensures
        r matches Some(c) ==> chunk_at(rc.heap@, code) == Some(*c),
        r is None <==> chunk_at(rc.heap@, code) is None,
{
    match code {
        CodeRef::Function(h) => {
            if h >= rc.heap.len() {
                return None;
            }
            match &rc.heap[h] {
                HeapObject::Function(f) => Some(&f.chunk),
                _ => None,
            }
        },
        CodeRef::Method(h, m) => {
            if h >= rc.heap.len() {
                return None;
            }
            match &rc.heap[h] {
                HeapObject::Struct(st) => {
                    if m >= st.methods.len() {
                        return None;
                    }
                    Some(&st.methods[m].function.chunk)
                },
                _ => None,
            }
        },
    }
}


/// The virtual machine: its call frames (the last is running, `ip` is its position), its
/// heap, whether a `break` is pending, and what it waits for from outside.
pub struct VM {
    pub frames: Vec<Frame>,
    pub ip: usize,
    pub rc: ReferenceCounter,
    pub break_loop: bool,
    pub pending: Pending,
}

impl VM {
    /// A frame is running, and `ip` is the last.
    pub open spec fn running(&self) -> bool {
        self.frames@.len() > 0 && self.ip + 1 == self.frames@.len()
    }

    /// Running, and waiting for nothing from outside.
    pub open spec fn ready(&self) -> bool {
        self.running() && self.pending == Pending::Nothing
    }

    /// The running frame.
    pub open spec fn top(&self) -> Frame {
        self.frames@.last()
    }

    /// What the running frame's instructions see.
    pub open spec fn top_state(&self) -> FrameState {
        self.top().state(self.break_loop)
    }

    /// The constant that a constant instruction names in the running frame's chunk.
    pub open spec fn konst(&self, op: OpCode) -> Option<ValueModel> {
        match op {
            OpCode::CONSTANT_FLOAT(i) | OpCode::CONSTANT_INT(i) | OpCode::CONSTANT_BOOL(i) | OpCode::CONSTANT_NULL(i) => {
                match chunk_at(self.rc.heap@, self.top().code) {
                    Some(c) => if i < c.values@.len() {
                        Some(c.values@[i as int])
                    } else {
                        None
                    },
                    None => None,
                }
            },
            _ => None,
        }
    }

    /// A machine with no frames and an empty heap.
    pub fn new() -> (vm: Self)
        ensures
            vm.frames@.len() == 0,
            vm.ip == 0,
            vm.rc.heap@.len() == 0,
            !vm.break_loop,
            vm.pending == Pending::Nothing,
    {
        VM { frames: Vec::new(), ip: 0, rc: ReferenceCounter::init(), break_loop: false, pending: Pending::Nothing }
    }

    /// Takes the running frame off.
    fn take_frame(&mut self) -> (f: Frame)
        requires
            old(self).running(),
        ensures
            f == old(self).top(),
            final(self).frames@ == old(self).frames@.drop_last(),
            final(self).ip == old(self).ip,
            final(self).rc == old(self).rc,
            final(self).break_loop == old(self).break_loop,
            final(self).pending == old(self).pending,
    {
        match self.frames.pop() {
            Some(f) => f,
            None => Frame { code: CodeRef::Function(0), stack: Vec::new(), ip: 0 },
        }
    }

    /// The next instruction of the running frame (a copy), moving the frame past it.
    /// Fails where the frame's code is not on the heap, where the frame has run off its
    /// code, or where the instruction is a declaration.
    pub fn get_instruction(&mut self) -> (r: Result<Instruction, RuntimeError>)
        requires
            old(self).running(),
        ensures
            final(self).running(),
            final(self).frames@.len() == old(self).frames@.len(),
            forall|i: int| 0 <= i < old(self).frames@.len() - 1 ==> final(self).frames@[i] == old(self).frames@[i],
            final(self).top().code == old(self).top().code,
            final(self).top().stack == old(self).top().stack,
            final(self).rc == old(self).rc,
            final(self).break_loop == old(self).break_loop,
            final(self).pending == old(self).pending,
            r is Ok ==> final(self).top().ip == old(self).top().ip + 1,
            r matches Ok(i) ==> chunk_at(old(self).rc.heap@, old(self).top().code) matches Some(c) && old(self).top().ip
                < c.code@.len() && same_op(i.op, c.code@[old(self).top().ip as int].op) && i.line == c.code@[old(
                self,
            ).top().ip as int].line,
            r is Err ==> final(self).top() == old(self).top(),
            r is Ok <==> fetchable(old(self).rc.heap@, old(self).top().code, old(self).top().ip as int),
            r matches Err(e) ==> e == fetch_error(old(self).rc.heap@, old(self).top().code, old(self).top().ip as int),
    {
        let mut frame = self.take_frame();
        let fetched = fetch(&self.rc, &mut frame);
        self.frames.push(frame);
        proof {
            assert(self.frames@.drop_last() == old(self).frames@.drop_last());
        }
        fetched
    }
}


/// Whether `s` is in ascending order.
pub open spec fn ascending(s: Seq<i64>) -> bool {
    forall|j: int, k: int| 0 <= j < k < s.len() ==> s[j] <= s[k]
}

/// The integers of `v` in ascending order.
pub fn sort_ints(v: &Vec<i64>) -> (r: Vec<i64>)
    ensures
        ascending(r@),
        r@.to_multiset() == v@.to_multiset(),
{
    let mut out: Vec<i64> = Vec::new();
    let mut i: usize = 0;
    assert(out@ =~= v@.take(0));
    while i < v.len()
        invariant
            i <= v@.len(),
            ascending(out@),
            out@.to_multiset() == v@.take(i as int).to_multiset(),
        decreases v@.len() - i,
    {
        let x = v[i];
        let mut p: usize = 0;
        while p < out.len() && out[p] <= x
            invariant
                p <= out@.len(),
                forall|j: int| 0 <= j < p ==> out@[j] <= x,
            decreases out@.len() - p,
        {
            p = p + 1;
        }
        let ghost before = out@;
        out.insert(p, x);
        proof {
            assert(out@ == before.insert(p as int, x));
            assert forall|j: int, k: int| 0 <= j < k < out@.len() implies out@[j] <= out@[k] by {
                if k < p {
                } else if k == p {
                    assert(out@[j] == before[j]);
                } else if j < p {
                    assert(out@[k] == before[k - 1]);
                    assert(before[p as int] > x);
                    assert(before[j] <= before[k - 1]);
                } else if j == p {
                    assert(out@[k] == before[k - 1]);
                    assert(before[p as int] > x);
                    assert(before[p as int] <= before[k - 1]);
                } else {
                    assert(out@[j] == before[j - 1]);
                    assert(out@[k] == before[k - 1]);
                }
            }
            assert(v@.take(i + 1) =~= v@.take(i as int).push(x));
            vstd::seq_lib::to_multiset_insert(before, p as int, x);
            vstd::seq_lib::to_multiset_build(v@.take(i as int), x);
        }
        i = i + 1;
    }
    assert(v@.take(i as int) =~= v@);
    out
}

/// The heap position a value refers to, where it is a reference.
pub open spec fn ref_of(v: ValueModel) -> Option<usize> {
    match v {
        ValueModel::InstanceRef(h) | ValueModel::StringRef(h) => Some(h),
        _ => None,
    }
}

/// The slot model of every object of a heap.
pub open spec fn heap_slots(heap: Seq<HeapObject>) -> Seq<SlotModel> {
    heap.map_values(|o: HeapObject| slot_of(o))
}

/// A slot holding other values.
pub open spec fn with_values(s: SlotModel, values: Seq<ValueModel>) -> SlotModel {
    SlotModel { values, ..s }
}

/// The heap position that local `pos` of a stack refers to.
pub open spec fn ref_at(st: Seq<ValueModel>, pos: int) -> Result<usize, RuntimeError> {
    if pos < 0 || pos >= st.len() {
        Err(RuntimeError::IndexOutOfRange)
    } else {
        match ref_of(st[pos]) {
            Some(h) => Ok(h),
            None => Err(RuntimeError::BadReference),
        }
    }
}

/// The heap position that the top of a stack refers to.
pub open spec fn top_ref(st: Seq<ValueModel>) -> Result<usize, RuntimeError> {
    if st.len() == 0 {
        Err(RuntimeError::StackUnderflow)
    } else {
        match ref_of(st.last()) {
            Some(h) => Ok(h),
            None => Err(RuntimeError::BadReference),
        }
    }
}

/// The top of a stack read as an index: a non-negative integer.
pub open spec fn top_index(st: Seq<ValueModel>) -> Result<usize, RuntimeError> {
    if st.len() == 0 {
        Err(RuntimeError::StackUnderflow)
    } else {
        match st.last() {
            ValueModel::Int(i) => if i < 0 || i > usize::MAX {
                Err(RuntimeError::IndexOutOfRange)
            } else {
                Ok(i as usize)
            },
            _ => Err(RuntimeError::UnsupportedType),
        }
    }
}

/// The heap with one reference more to the object at `h`.
pub open spec fn add_ref(s: Seq<SlotModel>, h: usize) -> Result<Seq<SlotModel>, RuntimeError> {
    if h >= s.len() {
        Err(RuntimeError::BadReference)
    } else if s[h as int].count >= usize::MAX {
        Err(RuntimeError::Overflow)
    } else {
        Ok(s.update(h as int, incremented(s[h as int])))
    }
}

/// The heap with one reference fewer to the object at `h`.
pub open spec fn drop_ref(s: Seq<SlotModel>, h: usize) -> Result<Seq<SlotModel>, RuntimeError> {
    if h >= s.len() || (s[h as int].counted && s[h as int].count == 0) {
        Err(RuntimeError::BadReference)
    } else {
        Ok(s.update(h as int, decremented(s[h as int])))
    }
}

/// The heap with one reference more to what `v` refers to, where it is a reference.
pub open spec fn add_value_ref(s: Seq<SlotModel>, v: ValueModel) -> Result<Seq<SlotModel>, RuntimeError> {
    match ref_of(v) {
        Some(h) => add_ref(s, h),
        None => Ok(s),
    }
}

/// The heap with one reference fewer to what `v` refers to, where it is a reference.
pub open spec fn drop_value_ref(s: Seq<SlotModel>, v: ValueModel) -> Result<Seq<SlotModel>, RuntimeError> {
    match ref_of(v) {
        Some(h) => drop_ref(s, h),
        None => Ok(s),
    }
}

/// The text of the string that a value refers to.
pub open spec fn string_text(heap: Seq<HeapObject>, v: ValueModel) -> Result<Seq<char>, RuntimeError> {
    match v {
        ValueModel::StringRef(h) => if h >= heap.len() || heap[h as int].values().len() == 0 {
            Err(RuntimeError::BadReference)
        } else {
            match heap[h as int].values()[0] {
                ValueModel::String(t) => Ok(t),
                _ => Err(RuntimeError::UnsupportedType),
            }
        },
        _ => Err(RuntimeError::BadReference),
    }
}

fn heap_ref(v: &Value) -> (r: Option<usize>)
    ensures
        r == ref_of(v@),
{
    match v {
        Value::InstanceRef(h) | Value::StringRef(h) => Some(*h),
        _ => None,
    }
}

/// Reading value `field` of the object at `h`, pushed on `rest`; the value read gains a
/// reference where it is one.
pub open spec fn read_step(heap: Seq<HeapObject>, h: usize, field: int, rest: Seq<ValueModel>) -> Result<
    (Seq<SlotModel>, Seq<ValueModel>),
    RuntimeError,
> {
    if h >= heap.len() {
        Err(RuntimeError::BadReference)
    } else if field >= heap[h as int].values().len() {
        Err(RuntimeError::IndexOutOfRange)
    } else {
        let v = heap[h as int].values()[field];
        match add_value_ref(heap_slots(heap), v) {
            Ok(s2) => Ok((s2, rest.push(v))),
            Err(e) => Err(e),
        }
    }
}

/// Writing `v` at `field` of the instance at `h`, then pushing `v` on `rest`; the value
/// written over loses a reference where it is one.
pub open spec fn write_step(heap: Seq<HeapObject>, h: usize, field: int, v: ValueModel, rest: Seq<ValueModel>) -> Result<
    (Seq<SlotModel>, Seq<ValueModel>),
    RuntimeError,
> {
    if h >= heap.len() || !(heap[h as int] is Instance) {
        Err(RuntimeError::BadReference)
    } else if field >= heap[h as int].values().len() {
        Err(RuntimeError::IndexOutOfRange)
    } else {
        let s = heap_slots(heap);
        let previous = s[h as int].values[field];
        let s1 = s.update(h as int, with_values(s[h as int], s[h as int].values.update(field, v)));
        match drop_value_ref(s1, previous) {
            Ok(s2) => Ok((s2, rest.push(v))),
            Err(e) => Err(e),
        }
    }
}

/// Whether the object at `h` is an instance, whose values a list instruction may change.
pub open spec fn is_instance_at(heap: Seq<HeapObject>, h: usize) -> bool {
    h < heap.len() && heap[h as int] is Instance
}

/// The heap with the values of the instance at `h` replaced.
pub open spec fn set_values(heap: Seq<HeapObject>, h: usize, values: Seq<ValueModel>) -> Seq<SlotModel> {
    let s = heap_slots(heap);
    s.update(h as int, with_values(s[h as int], values))
}

/// What the list instructions do: the list is the reference on top of the stack.
pub open spec fn list_step(op: OpCode, heap: Seq<HeapObject>, st: Seq<ValueModel>) -> Result<
    (Seq<SlotModel>, Seq<ValueModel>),
    RuntimeError,
> {
    match top_ref(st) {
        Err(e) => Err(e),
        Ok(h) => {
            let st1 = st.drop_last();
            let vals = if h < heap.len() { heap[h as int].values() } else { Seq::empty() };
            match op {
                OpCode::LIST_PUSH => if st1.len() == 0 {
                    Err(RuntimeError::StackUnderflow)
                } else if !is_instance_at(heap, h) {
                    Err(RuntimeError::BadReference)
                } else {
                    Ok((set_values(heap, h, vals.push(st1.last())), st1.drop_last()))
                },
                OpCode::LIST_POP => if !is_instance_at(heap, h) {
                    Err(RuntimeError::BadReference)
                } else if vals.len() == 0 {
                    Err(RuntimeError::EmptyList)
                } else {
                    Ok((set_values(heap, h, vals.drop_last()), st1.push(vals.last())))
                },
                OpCode::LIST_LEN => if h >= heap.len() {
                    Err(RuntimeError::BadReference)
                } else if vals.len() > i64::MAX {
                    Err(RuntimeError::Overflow)
                } else {
                    Ok((heap_slots(heap), st1.push(ValueModel::Int(vals.len() as i64))))
                },
                OpCode::LIST_INSERT => match top_index(st1) {
                    Err(e) => Err(e),
                    Ok(i) => {
                        let st2 = st1.drop_last();
                        if !is_instance_at(heap, h) {
                            Err(RuntimeError::BadReference)
                        } else if i >= vals.len() {
                            Err(RuntimeError::IndexOutOfRange)
                        } else if st2.len() == 0 {
                            Err(RuntimeError::StackUnderflow)
                        } else {
                            Ok((set_values(heap, h, vals.insert(i as int, st2.last())), st2.drop_last()))
                        }
                    },
                },
                _ => match top_index(st1) {
                    Err(e) => Err(e),
                    Ok(i) => {
                        let st2 = st1.drop_last();
                        if !is_instance_at(heap, h) {
                            Err(RuntimeError::BadReference)
                        } else if i >= vals.len() {
                            Err(RuntimeError::IndexOutOfRange)
                        } else {
                            match drop_value_ref(set_values(heap, h, vals.remove(i as int)), vals[i as int]) {
                                Ok(s2) => Ok((s2, st2)),
                                Err(e) => Err(e),
                            }
                        }
                    },
                },
            }
        },
    }
}

/// What the string instructions do to the two string references on top of the stack: each
/// loses a reference; `+` allocates the joined string, `==` and `!=` compare the texts.
pub open spec fn string_step(op: OpCode, heap: Seq<HeapObject>, st: Seq<ValueModel>) -> Result<
    (Seq<SlotModel>, Seq<ValueModel>),
    RuntimeError,
> {
    let n = st.len();
    if n < 2 {
        Err(RuntimeError::StackUnderflow)
    } else {
        match ref_at(st, n - 1) {
            Err(e) => Err(e),
            Ok(h1) => match drop_ref(heap_slots(heap), h1) {
                Err(e) => Err(e),
                Ok(s1) => match ref_at(st, n - 2) {
                    Err(e) => Err(e),
                    Ok(h0) => match drop_ref(s1, h0) {
                        Err(e) => Err(e),
                        Ok(s2) => match string_text(heap, st[n - 1]) {
                            Err(e) => Err(e),
                            Ok(a) => match string_text(heap, st[n - 2]) {
                                Err(e) => Err(e),
                                Ok(b) => {
                                    let rest = st.subrange(0, n - 2);
                                    match op {
                                        OpCode::ADD_STRING => Ok((
                                            s2.push(SlotModel { counted: true, count: 1, values: seq![ValueModel::String(b + a)] }),
                                            rest.push(ValueModel::StringRef(heap.len() as usize)),
                                        )),
                                        OpCode::EQ_STRING => Ok((s2, rest.push(ValueModel::Bool(a == b)))),
                                        _ => Ok((s2, rest.push(ValueModel::Bool(a != b)))),
                                    }
                                },
                            },
                        },
                    },
                },
            },
        }
    }
}

/// Removing at index `i` from a list takes out exactly the element at `i`: the elements
/// before it keep their places, those after it move down by one, and the index and the
/// list reference leave the stack.
pub proof fn law_list_remove(heap: Seq<HeapObject>, st: Seq<ValueModel>)
    requires
        heap_step(OpCode::LIST_REMOVE, heap, st) matches Some(Ok(_)),
    ensures
        heap_step(OpCode::LIST_REMOVE, heap, st) matches Some(Ok((s2, st2))) && top_ref(st) matches Ok(h) && top_index(
            st.drop_last(),
        ) matches Ok(i) && ({
            let old_vals = heap[h as int].values();
            let new_vals = s2[h as int].values;
            &&& h < heap.len() && i < old_vals.len()
            &&& new_vals.len() + 1 == old_vals.len()
            &&& forall|j: int| 0 <= j < i ==> new_vals[j] == old_vals[j]
            &&& forall|j: int| i <= j < new_vals.len() ==> new_vals[j] == old_vals[j + 1]
            &&& st2 == st.drop_last().drop_last()
        }),
{
    let h = top_ref(st)->Ok_0;
    let i = top_index(st.drop_last())->Ok_0;
    let old_vals = heap[h as int].values();
    let mid = set_values(heap, h, old_vals.remove(i as int));
    let s2 = drop_value_ref(mid, old_vals[i as int])->Ok_0;
    assert(s2[h as int].values == mid[h as int].values);
}

/// Inserting `v` at index `i` of a list puts `v` at `i`: the elements before it keep their
/// places and those from `i` on move up by one.
pub proof fn law_list_insert(heap: Seq<HeapObject>, st: Seq<ValueModel>)
    requires
        heap_step(OpCode::LIST_INSERT, heap, st) matches Some(Ok(_)),
    ensures
        heap_step(OpCode::LIST_INSERT, heap, st) matches Some(Ok((s2, st2))) && top_ref(st) matches Ok(h) && top_index(
            st.drop_last(),
        ) matches Ok(i) && ({
            let old_vals = heap[h as int].values();
            let new_vals = s2[h as int].values;
            let v = st.drop_last().drop_last().last();
            &&& h < heap.len() && i < old_vals.len()
            &&& new_vals.len() == old_vals.len() + 1
            &&& new_vals[i as int] == v
            &&& forall|j: int| 0 <= j < i ==> new_vals[j] == old_vals[j]
            &&& forall|j: int| i <= j < old_vals.len() ==> new_vals[j + 1] == old_vals[j]
            &&& st2 == st.drop_last().drop_last().drop_last()
        }),
{
}

/// Pushing onto a list adds the value at its end; popping takes the last value off and
/// leaves it on the stack.
pub proof fn law_list_push_pop(heap: Seq<HeapObject>, st: Seq<ValueModel>)
    ensures
        heap_step(OpCode::LIST_PUSH, heap, st) matches Some(Ok((s2, st2))) ==> {
            &&& top_ref(st) matches Ok(h)
            &&& ({
            let old_vals = heap[h as int].values();
            let new_vals = s2[h as int].values;
            &&& new_vals.len() == old_vals.len() + 1
            &&& new_vals.last() == st.drop_last().last()
            &&& forall|j: int| 0 <= j < old_vals.len() ==> new_vals[j] == old_vals[j]
        })
        },
        heap_step(OpCode::LIST_POP, heap, st) matches Some(Ok((s2, st2))) ==> {
            &&& top_ref(st) matches Ok(h)
            &&& ({
            let old_vals = heap[h as int].values();
            let new_vals = s2[h as int].values;
            &&& old_vals.len() > 0
            &&& new_vals.len() + 1 == old_vals.len()
            &&& st2.last() == old_vals.last()
            &&& forall|j: int| 0 <= j < new_vals.len() ==> new_vals[j] == old_vals[j]
        })
        },
{
}

/// Reading element `i` of the list held by local `pos` (or field `field` of the instance
/// it holds) pushes exactly the value stored there and leaves the object as it was; writing
/// `v` there changes that element only, and leaves `v` on the stack.
pub proof fn law_list_index(heap: Seq<HeapObject>, st: Seq<ValueModel>, pos: usize, field: usize)
    ensures
        heap_step(OpCode::GET_LIST_FIELD(pos), heap, st) matches Some(Ok((s2, st2))) ==> {
            &&& top_index(st) matches Ok(i)
            &&& ref_at(st.drop_last(), pos as int) matches Ok(h)
            &&& h < heap.len() && i < heap[h as int].values().len()
            &&& st2 == st.drop_last().push(heap[h as int].values()[i as int])
            &&& s2[h as int].values == heap[h as int].values()
        },
        heap_step(OpCode::SET_LIST_FIELD(pos), heap, st) matches Some(Ok((s2, st2))) ==> {
            &&& top_index(st.drop_last()) matches Ok(i)
            &&& ref_at(st.drop_last().drop_last(), pos as int) matches Ok(h)
            &&& h < heap.len() && i < heap[h as int].values().len()
            &&& s2[h as int].values.len() == heap[h as int].values().len()
            &&& s2[h as int].values[i as int] == st.last()
            &&& forall|j: int| 0 <= j < s2[h as int].values.len() && j != i ==> s2[h as int].values[j] == heap[h as int].values()[j]
            &&& st2 == st.drop_last().drop_last().push(st.last())
        },
        heap_step(OpCode::GET_INSTANCE_FIELD(pos, field), heap, st) matches Some(Ok((s2, st2))) ==> {
            &&& ref_at(st, pos as int) matches Ok(h)
            &&& h < heap.len() && field < heap[h as int].values().len()
            &&& st2 == st.push(heap[h as int].values()[field as int])
            &&& s2[h as int].values == heap[h as int].values()
        },
        heap_step(OpCode::SET_INSTANCE_FIELD(pos, field), heap, st) matches Some(Ok((s2, st2))) ==> {
            &&& ref_at(st.drop_last(), pos as int) matches Ok(h)
            &&& h < heap.len() && field < heap[h as int].values().len()
            &&& s2[h as int].values.len() == heap[h as int].values().len()
            &&& s2[h as int].values[field as int] == st.last()
            &&& forall|j: int| 0 <= j < s2[h as int].values.len() && j != field ==> s2[h as int].values[j] == heap[h as int].values()[j]
            &&& st2 == st.drop_last().push(st.last())
        },
{
}

/// `==` on two strings gives `true` exactly when they hold the same characters in the same
/// order, and `!=` exactly when they do not; `+` makes a new string of the left text
/// followed by the right one. The two references leave the stack.
pub proof fn law_string_equality(heap: Seq<HeapObject>, st: Seq<ValueModel>)
    ensures
        heap_step(OpCode::EQ_STRING, heap, st) matches Some(Ok((s2, st2))) ==> {
            &&& st.len() >= 2
            &&& string_text(heap, st[st.len() - 2]) matches Ok(b)
            &&& string_text(heap, st[st.len() - 1]) matches Ok(a)
            &&& st2.drop_last() == st.subrange(0, st.len() - 2)
            &&& st2.last() is Bool
            &&& (st2.last()->Bool_0 <==> (b.len() == a.len() && forall|k: int| 0 <= k < a.len() ==> b[k] == a[k]))
        },
        heap_step(OpCode::NEG_EQ_STRING, heap, st) matches Some(Ok((s2, st2))) ==> {
            &&& st.len() >= 2
            &&& string_text(heap, st[st.len() - 2]) matches Ok(b)
            &&& string_text(heap, st[st.len() - 1]) matches Ok(a)
            &&& st2.drop_last() == st.subrange(0, st.len() - 2)
            &&& st2.last() is Bool
            &&& (st2.last()->Bool_0 <==> !(b.len() == a.len() && forall|k: int| 0 <= k < a.len() ==> b[k] == a[k]))
        },
        heap_step(OpCode::ADD_STRING, heap, st) matches Some(Ok((s2, st2))) ==> {
            &&& st.len() >= 2
            &&& string_text(heap, st[st.len() - 2]) matches Ok(b)
            &&& string_text(heap, st[st.len() - 1]) matches Ok(a)
            &&& st2.last() == ValueModel::StringRef(heap.len() as usize)
            &&& s2.len() == heap.len() + 1
            &&& s2.last().values.len() == 1
            &&& s2.last().values[0] matches ValueModel::String(t)
            &&& t.len() == b.len() + a.len()
            &&& forall|k: int| 0 <= k < b.len() ==> t[k] == b[k]
            &&& forall|k: int| 0 <= k < a.len() ==> t[b.len() + k] == a[k]
        },
{
    if heap_step(OpCode::EQ_STRING, heap, st) matches Some(Ok((s2, st2))) {
        let a = string_text(heap, st[st.len() - 1])->Ok_0;
        let b = string_text(heap, st[st.len() - 2])->Ok_0;
        if b.len() == a.len() && forall|k: int| 0 <= k < a.len() ==> b[k] == a[k] {
            assert(b =~= a);
        }
    }
    if heap_step(OpCode::NEG_EQ_STRING, heap, st) matches Some(Ok((s2, st2))) {
        let a = string_text(heap, st[st.len() - 1])->Ok_0;
        let b = string_text(heap, st[st.len() - 2])->Ok_0;
        if b.len() == a.len() && forall|k: int| 0 <= k < a.len() ==> b[k] == a[k] {
            assert(b =~= a);
        }
    }
}

/// What an instruction that works on the heap does to it (as slots) and to the current
/// frame's stack; `None` for the other instructions, for calls, for sorting (see
/// `sorted_into`) and for built-in functions.
pub open spec fn heap_step(op: OpCode, heap: Seq<HeapObject>, st: Seq<ValueModel>) -> Option<
    Result<(Seq<SlotModel>, Seq<ValueModel>), RuntimeError>,
> {
    let s = heap_slots(heap);
    let n = st.len();
    match op {
        OpCode::STRING_DEC(inst) => Some(
            Ok((s.push(slot_of(HeapObject::Instance(inst))), st.push(ValueModel::StringRef(heap.len() as usize)))),
        ),
        OpCode::STRING_DEC_VALUE(inst) => Some(
            if n == 0 {
                Err(RuntimeError::StackUnderflow)
            } else {
                Ok((
                    s.push(SlotModel {
                        counted: true,
                        count: inst.rc_counter as nat,
                        values: models(inst.fields_values@).push(st.last()),
                    }),
                    st.drop_last().push(ValueModel::StringRef(heap.len() as usize)),
                ))
            },
        ),
        OpCode::INSTANCE_DEC(inst, count) => Some(
            if count > n {
                Err(RuntimeError::StackUnderflow)
            } else {
                Ok((
                    s.push(SlotModel {
                        counted: true,
                        count: inst.rc_counter as nat,
                        values: st.subrange(n - count, n as int) + models(inst.fields_values@).reverse(),
                    }),
                    st.subrange(0, n - count).push(ValueModel::InstanceRef(heap.len() as usize)),
                ))
            },
        ),
        OpCode::GET_INSTANCE_FIELD(pos, field) => Some(
            match ref_at(st, pos as int) {
                Err(e) => Err(e),
                Ok(h) => read_step(heap, h, field as int, st),
            },
        ),
        OpCode::SET_INSTANCE_FIELD(pos, field) => Some(
            if n == 0 {
                Err(RuntimeError::StackUnderflow)
            } else {
                match ref_at(st.drop_last(), pos as int) {
                    Err(e) => Err(e),
                    Ok(h) => write_step(heap, h, field as int, st.last(), st.drop_last()),
                }
            },
        ),
        OpCode::GET_LIST_FIELD(pos) => Some(
            match top_index(st) {
                Err(e) => Err(e),
                Ok(i) => match ref_at(st.drop_last(), pos as int) {
                    Err(e) => Err(e),
                    Ok(h) => read_step(heap, h, i as int, st.drop_last()),
                },
            },
        ),
        OpCode::SET_LIST_FIELD(pos) => Some(
            if n == 0 {
                Err(RuntimeError::StackUnderflow)
            } else {
                match top_index(st.drop_last()) {
                    Err(e) => Err(e),
                    Ok(i) => {
                        let rest = st.drop_last().drop_last();
                        match ref_at(rest, pos as int) {
                            Err(e) => Err(e),
                            Ok(h) => write_step(heap, h, i as int, st.last(), rest),
                        }
                    },
                }
            },
        ),
        OpCode::LIST_PUSH | OpCode::LIST_POP | OpCode::LIST_INSERT | OpCode::LIST_REMOVE | OpCode::LIST_LEN => Some(
            list_step(op, heap, st),
        ),
        OpCode::POP_UNUSED => Some(
            if n == 0 {
                Err(RuntimeError::StackUnderflow)
            } else {
                match drop_value_ref(s, st.last()) {
                    Ok(s2) => Ok((s2, st.drop_last())),
                    Err(e) => Err(e),
                }
            },
        ),
        OpCode::DEC_RC(pos) => Some(
            match ref_at(st, pos as int) {
                Err(e) => Err(e),
                Ok(h) => match drop_ref(s, h) {
                    Ok(s2) => Ok((s2, st)),
                    Err(e) => Err(e),
                },
            },
        ),
        OpCode::INC_RC(pos) => Some(
            match ref_at(st, pos as int) {
                Err(e) => Err(e),
                Ok(h) => match add_ref(s, h) {
                    Ok(s2) => Ok((s2, st)),
                    Err(e) => Err(e),
                },
            },
        ),
        OpCode::RF_REMOVE => Some(
            match sweep(s, s.len() as int) {
                Some(s2) => Ok((s2, st)),
                None => Err(RuntimeError::BadReference),
            },
        ),
        OpCode::ADD_STRING | OpCode::EQ_STRING | OpCode::NEG_EQ_STRING => Some(string_step(op, heap, st)),
        _ => None,
    }
}

/// Whether an instruction puts a new instance on the heap.
pub open spec fn allocates(op: OpCode) -> bool {
    op is STRING_DEC || op is STRING_DEC_VALUE || op is INSTANCE_DEC || op is ADD_STRING
}

/// What `heap_step` promises of a step that ended with `r`, from `heap` and `stack` to
/// `heap2` and `stack2`: the slots and stack it gives, and every slot still holding an
/// instance exactly where one was (with the new one at the end, where one is allocated).
pub open spec fn stepped(
    op: OpCode,
    heap: Seq<HeapObject>,
    stack: Seq<Value>,
    heap2: Seq<HeapObject>,
    stack2: Seq<Value>,
    r: Result<(), RuntimeError>,
) -> bool {
    match heap_step(op, heap, models(stack)) {
        Some(Ok((s2, st2))) => {
            &&& r is Ok
            &&& heap_slots(heap2) == s2
            &&& models(stack2) == st2
            &&& others_kept(heap, heap2)
            &&& !(op is RF_REMOVE) ==> kinds(heap2) == if allocates(op) {
                kinds(heap).push(true)
            } else {
                kinds(heap)
            }
        },
        Some(Err(e)) => r == Err::<(), RuntimeError>(e),
        None => true,
    }
}

/// Putting back, changed, an instance taken from slot `h` changes only the values of that slot.
proof fn lemma_put_back(heap: Seq<HeapObject>, h: usize, inst: StructInstance, inst2: StructInstance)
    requires
        h < heap.len(),
        heap[h as int] == HeapObject::Instance(inst),
        inst2.rc_counter == inst.rc_counter,
    ensures
        heap_slots(heap.update(h as int, HeapObject::Empty(EmptyObject {})).update(h as int, HeapObject::Instance(inst2)))
            == set_values(heap, h, models(inst2.fields_values@)),
        kinds(heap.update(h as int, HeapObject::Empty(EmptyObject {})).update(h as int, HeapObject::Instance(inst2)))
            == kinds(heap),
        others_kept(heap, heap.update(h as int, HeapObject::Empty(EmptyObject {})).update(h as int, HeapObject::Instance(inst2))),
{
    lemma_others_kept_trans(heap, heap, heap);
    let heap2 = heap.update(h as int, HeapObject::Empty(EmptyObject {})).update(h as int, HeapObject::Instance(inst2));
    assert(heap2 =~= heap.update(h as int, HeapObject::Instance(inst2)));
    let s = heap_slots(heap);
    assert(slot_of(HeapObject::Instance(inst2)) == with_values(s[h as int], models(inst2.fields_values@)));
    assert(heap_slots(heap2) =~= set_values(heap, h, models(inst2.fields_values@)));
    assert(kinds(heap2) =~= kinds(heap));
}

/// The views of a vector after a push, a pop, an insertion or a removal.
proof fn lemma_models_edit(v: Seq<Value>, x: Value, i: int)
    ensures
        models(v.push(x)) == models(v).push(x@),
        v.len() > 0 ==> models(v.subrange(0, v.len() - 1)) == models(v).drop_last(),
        0 <= i <= v.len() ==> models(v.insert(i, x)) == models(v).insert(i, x@),
        0 <= i < v.len() ==> models(v.remove(i)) == models(v).remove(i),
{
    assert(models(v.push(x)) =~= models(v).push(x@));
    if v.len() > 0 {
        assert(models(v.subrange(0, v.len() - 1)) =~= models(v).drop_last());
    }
    if 0 <= i <= v.len() {
        assert(models(v.insert(i, x)) =~= models(v).insert(i, x@));
    }
    if 0 <= i < v.len() {
        assert(models(v.remove(i)) =~= models(v).remove(i));
    }
}

/// Runs a list instruction: push, pop, insert, remove, or length.
fn list_op(rc: &mut ReferenceCounter, frame: &mut Frame, op: &OpCode) -> (r: Result<(), RuntimeError>)
    requires
        *op is LIST_PUSH || *op is LIST_POP || *op is LIST_INSERT || *op is LIST_REMOVE || *op is LIST_LEN,
    ensures
        stepped(*op, old(rc).heap@, old(frame).stack@, final(rc).heap@, final(frame).stack@, r),
        final(frame).code == old(frame).code,
        final(frame).ip == old(frame).ip,
{
    let ghost heap0 = rc.heap@;
    let ghost st0 = models(frame.stack@);
    let h = pop_ref(frame)?;
    let ghost st1 = models(frame.stack@);
    match op {
        OpCode::LIST_LEN => {
            let values = object_values(rc, h)?;
            if values.len() as u64 > 9223372036854775807u64 {
                return Err(RuntimeError::Overflow);
            }
            stack_push(&mut frame.stack, Value::Int(values.len() as i64));
            Ok(())
        },
        OpCode::LIST_PUSH => {
            let v = pop(frame)?;
            let mut instance = take_instance(rc, h)?;
            let ghost inst0 = instance;
            proof {
                lemma_models_edit(instance.fields_values@, v, 0);
            }
            instance.fields_values.push(v);
            put_instance(rc, h, instance);
            proof {
                lemma_put_back(heap0, h, inst0, instance);
            }
            Ok(())
        },
        OpCode::LIST_POP => {
            let mut instance = take_instance(rc, h)?;
            let ghost inst0 = instance;
            let ghost heap1 = rc.heap@;
            let last = instance.fields_values.pop();
            proof {
                lemma_models_edit(inst0.fields_values@, Value::Null, 0);
            }
            put_instance(rc, h, instance);
            match last {
                Some(v) => {
                    proof {
                        lemma_put_back(heap0, h, inst0, instance);
                    }
                    stack_push(&mut frame.stack, v);
                    Ok(())
                },
                None => Err(RuntimeError::EmptyList),
            }
        },
        OpCode::LIST_INSERT => {
            let index = pop_index(frame)?;
            let mut instance = take_instance(rc, h)?;
            let ghost inst0 = instance;
            if index >= instance.fields_values.len() {
                put_instance(rc, h, instance);
                return Err(RuntimeError::IndexOutOfRange);
            }
            let v = match pop(frame) {
                Ok(v) => v,
                Err(e) => {
                    put_instance(rc, h, instance);
                    return Err(e);
                },
            };
            proof {
                lemma_models_edit(instance.fields_values@, v, index as int);
            }
            instance.fields_values.insert(index, v);
            put_instance(rc, h, instance);
            proof {
                lemma_put_back(heap0, h, inst0, instance);
            }
            Ok(())
        },
        _ => {
            let index = pop_index(frame)?;
            let mut instance = take_instance(rc, h)?;
            let ghost inst0 = instance;
            if index >= instance.fields_values.len() {
                put_instance(rc, h, instance);
                return Err(RuntimeError::IndexOutOfRange);
            }
            proof {
                lemma_models_edit(instance.fields_values@, Value::Null, index as int);
            }
            let removed = instance.fields_values.remove(index);
            put_instance(rc, h, instance);
            proof {
                lemma_put_back(heap0, h, inst0, instance);
            }
            dec_ref(rc, &removed)?;
            Ok(())
        },
    }
}

/// Runs an instruction that reads or writes a value of an instance or a list.
fn field_op(rc: &mut ReferenceCounter, frame: &mut Frame, op: &OpCode) -> (r: Result<(), RuntimeError>)
    requires
        *op is GET_INSTANCE_FIELD || *op is SET_INSTANCE_FIELD || *op is GET_LIST_FIELD || *op is SET_LIST_FIELD,
    ensures
        stepped(*op, old(rc).heap@, old(frame).stack@, final(rc).heap@, final(frame).stack@, r),
        final(frame).code == old(frame).code,
        final(frame).ip == old(frame).ip,
{
    let ghost heap0 = rc.heap@;
    match op {
        OpCode::GET_INSTANCE_FIELD(pos, field) => read_field(rc, frame, *pos, *field),
        OpCode::GET_LIST_FIELD(pos) => {
            let index = pop_index(frame)?;
            read_field(rc, frame, *pos, index)
        },
        OpCode::SET_INSTANCE_FIELD(pos, field) => {
            let v = pop(frame)?;
            write_field(rc, frame, *pos, *field, v)
        },
        OpCode::SET_LIST_FIELD(pos) => {
            let v = pop(frame)?;
            let index = pop_index(frame)?;
            write_field(rc, frame, *pos, index, v)
        },
        _ => Ok(()),
    }
}

/// Pushes value `field` of the object that local `pos` refers to.
fn read_field(rc: &mut ReferenceCounter, frame: &mut Frame, pos: usize, field: usize) -> (r: Result<(), RuntimeError>)
    ensures
        match ref_at(models(old(frame).stack@), pos as int) {
            Err(e) => r == Err::<(), RuntimeError>(e),
            Ok(h) => match read_step(old(rc).heap@, h, field as int, models(old(frame).stack@)) {
                Ok((s2, st2)) => r is Ok && heap_slots(final(rc).heap@) == s2 && models(final(frame).stack@) == st2
                    && kinds(final(rc).heap@) == kinds(old(rc).heap@),
                Err(e) => r == Err::<(), RuntimeError>(e),
            },
        },
        r is Ok ==> others_kept(old(rc).heap@, final(rc).heap@),
        final(frame).code == old(frame).code,
        final(frame).ip == old(frame).ip,
{
    let h = local_ref(frame, pos)?;
    let values = object_values(rc, h)?;
    if field >= values.len() {
        return Err(RuntimeError::IndexOutOfRange);
    }
    let v = values[field].copy();
    inc_ref(rc, &v)?;
    stack_push(&mut frame.stack, v);
    Ok(())
}

/// Writes `v` at `field` of the instance that local `pos` refers to, and pushes `v`.
fn write_field(rc: &mut ReferenceCounter, frame: &mut Frame, pos: usize, field: usize, v: Value) -> (r: Result<(), RuntimeError>)
    ensures
        match ref_at(models(old(frame).stack@), pos as int) {
            Err(e) => r == Err::<(), RuntimeError>(e),
            Ok(h) => match write_step(old(rc).heap@, h, field as int, v@, models(old(frame).stack@)) {
                Ok((s2, st2)) => r is Ok && heap_slots(final(rc).heap@) == s2 && models(final(frame).stack@) == st2
                    && kinds(final(rc).heap@) == kinds(old(rc).heap@),
                Err(e) => r == Err::<(), RuntimeError>(e),
            },
        },
        r is Ok ==> others_kept(old(rc).heap@, final(rc).heap@),
        final(frame).code == old(frame).code,
        final(frame).ip == old(frame).ip,
{
    let ghost heap0 = rc.heap@;
    let h = local_ref(frame, pos)?;
    let mut instance = take_instance(rc, h)?;
    let ghost inst0 = instance;
    if field >= instance.fields_values.len() {
        put_instance(rc, h, instance);
        return Err(RuntimeError::IndexOutOfRange);
    }
    let previous = instance.fields_values[field].copy();
    instance.fields_values.set(field, v.copy());
    proof {
        assert(models(instance.fields_values@) =~= models(inst0.fields_values@).update(field as int, v@));
    }
    put_instance(rc, h, instance);
    proof {
        lemma_put_back(heap0, h, inst0, instance);
    }
    let ghost heap1 = rc.heap@;
    dec_ref(rc, &previous)?;
    proof {
        lemma_others_kept_trans(heap0, heap1, rc.heap@);
    }
    stack_push(&mut frame.stack, v);
    Ok(())
}

/// Runs an instruction that only counts references: drops an unused value, drops or adds a
/// reference held by a local, or sweeps the heap.
fn count_op(rc: &mut ReferenceCounter, frame: &mut Frame, op: &OpCode) -> (r: Result<(), RuntimeError>)
    requires
        *op is POP_UNUSED || *op is DEC_RC || *op is INC_RC || *op is RF_REMOVE,
    ensures
        stepped(*op, old(rc).heap@, old(frame).stack@, final(rc).heap@, final(frame).stack@, r),
        final(frame).code == old(frame).code,
        final(frame).ip == old(frame).ip,
{
    match op {
        OpCode::POP_UNUSED => {
            let v = pop(frame)?;
            dec_ref(rc, &v)
        },
        OpCode::DEC_RC(pos) => {
            let h = local_ref(frame, *pos)?;
            let ghost h0 = rc.heap@;
            let r = rc.try_dec_counter(h);
            proof {
                lemma_recounted_keeps(h0, rc.heap@);
            }
            r
        },
        OpCode::INC_RC(pos) => {
            let h = local_ref(frame, *pos)?;
            let ghost h0 = rc.heap@;
            let r = rc.try_inc_counter(h);
            proof {
                if r is Ok {
                    lemma_recounted_keeps(h0, rc.heap@);
                }
            }
            r
        },
        _ => {
            let ghost h0 = rc.heap@;
            let r = rc.try_remove();
            proof {
                lemma_recounted_keeps(h0, rc.heap@);
            }
            r
        },
    }
}

/// Runs an instruction that puts a new instance on the heap: a string, a string with a
/// value, or a struct instance whose fields are taken from the stack.
fn alloc_op(rc: &mut ReferenceCounter, frame: &mut Frame, op: OpCode) -> (r: Result<(), RuntimeError>)
    requires
        op is STRING_DEC || op is STRING_DEC_VALUE || op is INSTANCE_DEC,
    ensures
        stepped(op, old(rc).heap@, old(frame).stack@, final(rc).heap@, final(frame).stack@, r),
        final(frame).code == old(frame).code,
        final(frame).ip == old(frame).ip,
{
    let ghost heap0 = rc.heap@;
    match op {
        OpCode::STRING_DEC(instance) => {
            let pos = allocate(rc, instance);
            stack_push(&mut frame.stack, Value::StringRef(pos));
            proof {
                assert(heap_slots(rc.heap@) =~= heap_slots(heap0).push(slot_of(HeapObject::Instance(instance))));
                assert(kinds(rc.heap@) =~= kinds(heap0).push(true));
            }
            Ok(())
        },
        OpCode::STRING_DEC_VALUE(instance) => {
            let mut instance = instance;
            let ghost inst0 = instance;
            let v = pop(frame)?;
            proof {
                lemma_models_edit(instance.fields_values@, v, 0);
            }
            instance.fields_values.push(v);
            let ghost inst1 = instance;
            let pos = allocate(rc, instance);
            stack_push(&mut frame.stack, Value::StringRef(pos));
            proof {
                assert(heap_slots(rc.heap@) =~= heap_slots(heap0).push(slot_of(HeapObject::Instance(inst1))));
                assert(kinds(rc.heap@) =~= kinds(heap0).push(true));
            }
            Ok(())
        },
        OpCode::INSTANCE_DEC(instance, count) => {
            if count > frame.stack.len() {
                return Err(RuntimeError::StackUnderflow);
            }
            let ghost st0 = frame.stack@;
            let at = frame.stack.len() - count;
            let mut fields = frame.stack.split_off(at);
            let mut previous = reversed(instance.fields_values);
            let ghost prev = previous@;
            let ghost taken = fields@;
            fields.append(&mut previous);
            let ghost inst1 = StructInstance { fields_values: fields, rc_counter: instance.rc_counter };
            proof {
                assert(models(fields@) =~= models(st0).subrange(at as int, st0.len() as int) + models(prev));
                assert(models(frame.stack@) =~= models(st0).subrange(0, at as int));
            }
            let pos = allocate(rc, StructInstance { fields_values: fields, rc_counter: instance.rc_counter });
            stack_push(&mut frame.stack, Value::InstanceRef(pos));
            proof {
                assert(heap_slots(rc.heap@) =~= heap_slots(heap0).push(slot_of(HeapObject::Instance(inst1))));
                assert(kinds(rc.heap@) =~= kinds(heap0).push(true));
            }
            Ok(())
        },
        _ => Ok(()),
    }
}

/// Runs a string instruction: joins, or compares, the two strings on top of the stack.
fn string_op(rc: &mut ReferenceCounter, frame: &mut Frame, op: &OpCode) -> (r: Result<(), RuntimeError>)
    requires
        *op is ADD_STRING || *op is EQ_STRING || *op is NEG_EQ_STRING,
    ensures
        stepped(*op, old(rc).heap@, old(frame).stack@, final(rc).heap@, final(frame).stack@, r),
        final(frame).code == old(frame).code,
        final(frame).ip == old(frame).ip,
{
    let ghost heap0 = rc.heap@;
    let ghost st0 = models(frame.stack@);
    let n = frame.stack.len();
    if n < 2 {
        return Err(RuntimeError::StackUnderflow);
    }
    let top = local_ref(frame, n - 1)?;
    rc.try_dec_counter(top)?;
    let below = local_ref(frame, n - 2)?;
    rc.try_dec_counter(below)?;
    let ghost heap2 = rc.heap@;
    proof {
        assert forall|v: ValueModel| string_text(heap2, v) == string_text(heap0, v) by {
            if let ValueModel::StringRef(h) = v {
                if h < heap0.len() {
                    assert(heap_slots(heap2)[h as int].values == heap_slots(heap0)[h as int].values);
                }
            }
        }
    }
    let a = pop_string(rc, frame)?;
    let b = pop_string(rc, frame)?;
    proof {
        assert(models(frame.stack@) =~= st0.subrange(0, n - 2));
    }
    match op {
        OpCode::ADD_STRING => {
            let mut joined = b;
            crate::text::append_chars(&mut joined, a.as_slice());
            let mut instance = StructInstance::new();
            instance.fields_values.push(Value::String(joined));
            let ghost inst1 = instance;
            let pos = allocate(rc, instance);
            stack_push(&mut frame.stack, Value::StringRef(pos));
            proof {
                assert(models(inst1.fields_values@) =~= seq![ValueModel::String(joined@)]);
                assert(heap_slots(rc.heap@) =~= heap_slots(heap2).push(slot_of(HeapObject::Instance(inst1))));
                assert(kinds(rc.heap@) =~= kinds(heap0).push(true));
            }
            Ok(())
        },
        OpCode::EQ_STRING => {
            let same = crate::tokens::chars_equal(a.as_slice(), b.as_slice());
            stack_push(&mut frame.stack, Value::Bool(same));
            Ok(())
        },
        _ => {
            let same = crate::tokens::chars_equal(a.as_slice(), b.as_slice());
            stack_push(&mut frame.stack, Value::Bool(!same));
            Ok(())
        },
    }
}

/// The integer a value holds (0 for any other value).
pub open spec fn int_value(v: ValueModel) -> i64 {
    match v {
        ValueModel::Int(x) => x,
        _ => 0,
    }
}

/// `out` is `vals`, all integers, in ascending order.
pub open spec fn sorted_values(vals: Seq<ValueModel>, out: Seq<ValueModel>) -> bool {
    &&& forall|j: int| 0 <= j < out.len() ==> out[j] is Int
    &&& ascending(out.map_values(|v: ValueModel| int_value(v)))
    &&& out.map_values(|v: ValueModel| int_value(v)).to_multiset() == vals.map_values(|v: ValueModel| int_value(v)).to_multiset()
}

/// Where sorting the list on top of the stack fails, or else the list's position.
pub open spec fn sort_check(heap: Seq<HeapObject>, st: Seq<ValueModel>) -> Result<usize, RuntimeError> {
    match top_ref(st) {
        Err(e) => Err(e),
        Ok(h) => if h >= heap.len() {
            Err(RuntimeError::BadReference)
        } else if exists|j: int| 0 <= j < heap[h as int].values().len() && !(heap[h as int].values()[j] is Int) {
            Err(RuntimeError::UnsupportedType)
        } else if !(heap[h as int] is Instance) {
            Err(RuntimeError::BadReference)
        } else {
            Ok(h)
        },
    }
}

/// Sorts the list on top of the stack, which must hold integers only, and pops it.
fn list_sort(rc: &mut ReferenceCounter, frame: &mut Frame) -> (r: Result<(), RuntimeError>)
    ensures
        match sort_check(old(rc).heap@, models(old(frame).stack@)) {
            Err(e) => r == Err::<(), RuntimeError>(e),
            Ok(h) => {
                &&& r is Ok
                &&& models(final(frame).stack@) == models(old(frame).stack@).drop_last()
                &&& kinds(final(rc).heap@) == kinds(old(rc).heap@)
                &&& exists|out: Seq<ValueModel>| #![trigger set_values(old(rc).heap@, h, out)]
                    sorted_values(old(rc).heap@[h as int].values(), out)
                    && heap_slots(final(rc).heap@) == set_values(old(rc).heap@, h, out)
            },
        },
        final(frame).code == old(frame).code,
        final(frame).ip == old(frame).ip,
{
    let ghost heap0 = rc.heap@;
    let h = pop_ref(frame)?;
    let values = object_values(rc, h)?;
    let ghost vals = models(values@);
    let mut ints: Vec<i64> = Vec::new();
    let mut k: usize = 0;
    while k < values.len()
        invariant
            k <= values@.len(),
            vals == models(values@),
            ints@.len() == k,
            rc.heap@ == heap0,
            h < heap0.len(),
            vals == heap0[h as int].values(),
            frame.code == old(frame).code,
            frame.ip == old(frame).ip,
            models(frame.stack@) == models(old(frame).stack@).drop_last(),
            top_ref(models(old(frame).stack@)) == Ok::<usize, RuntimeError>(h),
            heap0 == old(rc).heap@,
            forall|j: int| 0 <= j < k ==> vals[j] == ValueModel::Int(#[trigger] ints@[j]),
        decreases values@.len() - k,
    {
        let x = match &values[k] {
            Value::Int(x) => *x,
            _ => {
                assert(!(vals[k as int] is Int));
                assert(heap0[h as int].values() == vals);
                return Err(RuntimeError::UnsupportedType);
            },
        };
        assert(vals[k as int] == ValueModel::Int(x));
        let ghost before = ints@;
        ints.push(x);
        assert forall|j: int| 0 <= j < k + 1 implies vals[j] == ValueModel::Int(#[trigger] ints@[j]) by {
            if j < k {
                assert(ints@[j] == before[j]);
            }
        }
        k = k + 1;
    }
    assert(ints@ =~= vals.map_values(|v: ValueModel| int_value(v)));
    assert forall|j: int| 0 <= j < vals.len() implies vals[j] is Int by {
        assert(vals[j] == ValueModel::Int(ints@[j]));
    }
    assert(!(exists|j: int| 0 <= j < vals.len() && !(vals[j] is Int)));
    let sorted = sort_ints(&ints);
    let mut instance = take_instance(rc, h)?;
    let ghost inst0 = instance;
    let mut fields: Vec<Value> = Vec::new();
    let mut k: usize = 0;
    while k < sorted.len()
        invariant
            k <= sorted@.len(),
            fields@.len() == k,
            frame.code == old(frame).code,
            frame.ip == old(frame).ip,
            forall|j: int| 0 <= j < k ==> fields@[j] == Value::Int(sorted@[j]),
        decreases sorted@.len() - k,
    {
        fields.push(Value::Int(sorted[k]));
        k = k + 1;
    }
    instance.fields_values = fields;
    let ghost out = models(instance.fields_values@);
    put_instance(rc, h, instance);
    proof {
        lemma_put_back(heap0, h, inst0, instance);
        assert(out.map_values(|v: ValueModel| int_value(v)) =~= sorted@);
        assert(sorted_values(vals, out));
        assert(heap_slots(rc.heap@) == set_values(heap0, h, out));
    }
    Ok(())
}

/// Which code a call instruction enters and how many values of the stack it hands to it;
/// `None` for the other instructions.
pub open spec fn call_step(op: OpCode, heap: Seq<HeapObject>, st: Seq<ValueModel>) -> Option<
    Result<(CodeRef, usize), RuntimeError>,
> {
    match op {
        OpCode::FUNCTION_CALL(index) => Some(
            if index >= heap.len() {
                Err(RuntimeError::BadReference)
            } else {
                match heap[index as int] {
                    HeapObject::Function(f) => if f.arg_count > st.len() {
                        Err(RuntimeError::StackUnderflow)
                    } else {
                        Ok((CodeRef::Function(index), f.arg_count))
                    },
                    _ => Err(RuntimeError::BadReference),
                }
            },
        ),
        OpCode::METHOD_CALL(root, index) => Some(
            if root >= heap.len() {
                Err(RuntimeError::BadReference)
            } else {
                match heap[root as int] {
                    HeapObject::Struct(s) => if index >= s.methods@.len() {
                        Err(RuntimeError::BadReference)
                    } else {
                        let f = s.methods@[index as int].function;
                        if f.is_self_arg && f.arg_count == usize::MAX {
                            Err(RuntimeError::Overflow)
                        } else {
                            let count = if f.is_self_arg { (f.arg_count + 1) as usize } else { f.arg_count };
                            if count > st.len() {
                                Err(RuntimeError::StackUnderflow)
                            } else {
                                Ok((CodeRef::Method(root, index), count))
                            }
                        }
                    },
                    _ => Err(RuntimeError::BadReference),
                }
            },
        ),
        _ => None,
    }
}

/// What a step asks of the machine's frames.
pub enum Next {
    /// Stay in the frame, with this outcome.
    Stay(Outcome),
    /// Call: push this frame.
    Enter(Frame),
}

/// The values of `v` in reverse order.
fn reversed(v: Vec<Value>) -> (r: Vec<Value>)
    ensures
        models(r@) == models(v@).reverse(),
{
    let mut rest = v;
    let ghost whole = models(rest@);
    let mut out: Vec<Value> = Vec::new();
    while rest.len() > 0
        invariant
            models(out@) + models(rest@).reverse() == whole.reverse(),
        decreases rest@.len(),
    {
        let ghost m = models(rest@);
        let x = rest.pop().unwrap();
        proof {
            assert(models(rest@) =~= m.drop_last());
            assert(m.reverse() =~= seq![m.last()] + m.drop_last().reverse());
        }
        let ghost out_before = models(out@);
        stack_push(&mut out, x);
        assert(models(out@) + models(rest@).reverse() =~= out_before + m.reverse());
    }
    assert(models(out@) + models(rest@).reverse() =~= models(out@));
    out
}

/// A copy of the values of the object at `h`.
fn object_values(rc: &ReferenceCounter, h: usize) -> (r: Result<Vec<Value>, RuntimeError>)
    ensures
        h < rc.heap@.len() ==> (r matches Ok(v) && models(v@) == rc.heap@[h as int].values()),
        h >= rc.heap@.len() ==> r == Err::<Vec<Value>, RuntimeError>(RuntimeError::BadReference),
{
    if h >= rc.heap.len() {
        return Err(RuntimeError::BadReference);
    }
    let v = crate::rc::Object::get_values(&rc.heap[h]);
    proof {
        assert(models(v@) =~= v@.map_values(|x: Value| x@));
    }
    Ok(v)
}

/// The string a value stands for as an argument: a string reference gives the first
/// value of its instance; any other value stands for itself.
fn string_of(rc: &ReferenceCounter, v: Value) -> (r: Result<Value, RuntimeError>)
    ensures
        match arg_value(rc.heap@, v@) {
            Ok(x) => r matches Ok(y) && y@ == x,
            Err(e) => r == Err::<Value, RuntimeError>(e),
        },
{
    match v {
        Value::StringRef(h) => {
            let values = object_values(rc, h)?;
            if values.len() == 0 {
                return Err(RuntimeError::BadReference);
            }
            Ok(values[0].copy())
        },
        other => Ok(other),
    }
}

/// Adds a reference to what `v` refers to, where it is a reference.
fn inc_ref(rc: &mut ReferenceCounter, v: &Value) -> (r: Result<(), RuntimeError>)
    ensures
        final(rc).heap@.len() == old(rc).heap@.len(),
        r is Ok ==> others_kept(old(rc).heap@, final(rc).heap@),
        kinds(final(rc).heap@) == kinds(old(rc).heap@),
        match add_value_ref(old(rc).slots(), v@) {
            Ok(s2) => r is Ok && final(rc).slots() == s2,
            Err(e) => r == Err::<(), RuntimeError>(e),
        },
{
    proof {
        lemma_others_kept_trans(rc.heap@, rc.heap@, rc.heap@);
    }
    let ghost h0 = rc.heap@;
    match heap_ref(v) {
        Some(h) => {
            let r = rc.try_inc_counter(h);
            proof {
                if r is Ok {
                    lemma_recounted_keeps(h0, rc.heap@);
                }
            }
            r
        },
        None => Ok(()),
    }
}

/// Drops a reference to what `v` refers to, where it is a reference.
fn dec_ref(rc: &mut ReferenceCounter, v: &Value) -> (r: Result<(), RuntimeError>)
    ensures
        final(rc).heap@.len() == old(rc).heap@.len(),
        others_kept(old(rc).heap@, final(rc).heap@),
        kinds(final(rc).heap@) == kinds(old(rc).heap@),
        match drop_value_ref(old(rc).slots(), v@) {
            Ok(s2) => r is Ok && final(rc).slots() == s2,
            Err(e) => r == Err::<(), RuntimeError>(e),
        },
{
    proof {
        lemma_others_kept_trans(rc.heap@, rc.heap@, rc.heap@);
    }
    let ghost h0 = rc.heap@;
    match heap_ref(v) {
        Some(h) => {
            let r = rc.try_dec_counter(h);
            proof {
                lemma_recounted_keeps(h0, rc.heap@);
            }
            r
        },
        None => Ok(()),
    }
}

/// Takes the instance at `h` out of the heap, leaving an empty slot.
fn take_instance(rc: &mut ReferenceCounter, h: usize) -> (r: Result<StructInstance, RuntimeError>)
    ensures
        final(rc).heap@.len() == old(rc).heap@.len(),
        r is Ok <==> h < old(rc).heap@.len() && old(rc).heap@[h as int] is Instance,
        r matches Ok(inst) ==> old(rc).heap@[h as int] == HeapObject::Instance(inst)
            && final(rc).heap@ == old(rc).heap@.update(h as int, HeapObject::Empty(EmptyObject {})),
        r matches Err(e) ==> e == RuntimeError::BadReference && final(rc).heap@ == old(rc).heap@,
{
    let ghost before = rc.heap@;
    if h >= rc.heap.len() {
        return Err(RuntimeError::BadReference);
    }
    let o = rc.heap.remove(h);
    match o {
        HeapObject::Instance(inst) => {
            rc.heap.insert(h, HeapObject::Empty(EmptyObject {}));
            assert(rc.heap@ =~= before.update(h as int, HeapObject::Empty(EmptyObject {})));
            Ok(inst)
        },
        other => {
            rc.heap.insert(h, other);
            assert(rc.heap@ =~= before);
            Err(RuntimeError::BadReference)
        },
    }
}

/// Puts an instance back at `h`.
fn put_instance(rc: &mut ReferenceCounter, h: usize, inst: StructInstance)
    requires
        h < old(rc).heap@.len(),
    ensures
        final(rc).heap@ == old(rc).heap@.update(h as int, HeapObject::Instance(inst)),
{
    rc.heap.set(h, HeapObject::Instance(inst));
}

/// Puts a new instance on the heap and gives its position.
fn allocate(rc: &mut ReferenceCounter, inst: StructInstance) -> (pos: usize)
    ensures
        pos == old(rc).heap@.len(),
        final(rc).heap@ == old(rc).heap@.push(HeapObject::Instance(inst)),
        others_kept(old(rc).heap@, final(rc).heap@),
{
    proof {
        lemma_others_kept_trans(rc.heap@, rc.heap@, rc.heap@);
    }
    let pos = rc.heap.len();
    rc.push(HeapObject::Instance(inst));
    pos
}

/// The instance position held by local `pos` of `frame`.
fn local_ref(frame: &Frame, pos: usize) -> (r: Result<usize, RuntimeError>)
    ensures
        r == ref_at(models(frame.stack@), pos as int),
{
    if pos >= frame.stack.len() {
        return Err(RuntimeError::IndexOutOfRange);
    }
    match heap_ref(&frame.stack[pos]) {
        Some(h) => Ok(h),
        None => Err(RuntimeError::BadReference),
    }
}

/// Pops an index: a non-negative integer.
fn pop_index(frame: &mut Frame) -> (r: Result<usize, RuntimeError>)
    ensures
        final(frame).code == old(frame).code,
        final(frame).ip == old(frame).ip,
        r == top_index(models(old(frame).stack@)),
        old(frame).stack@.len() > 0 ==> models(final(frame).stack@) == models(old(frame).stack@).drop_last(),
{
    match stack_pop(&mut frame.stack) {
        Some(Value::Int(i)) => {
            if i < 0 {
                return Err(RuntimeError::IndexOutOfRange);
            }
            if i as u64 > usize::MAX as u64 {
                return Err(RuntimeError::IndexOutOfRange);
            }
            Ok(i as usize)
        },
        Some(_) => Err(RuntimeError::UnsupportedType),
        None => Err(RuntimeError::StackUnderflow),
    }
}

/// Pops a value.
fn pop(frame: &mut Frame) -> (r: Result<Value, RuntimeError>)
    ensures
        final(frame).code == old(frame).code,
        final(frame).ip == old(frame).ip,
        old(frame).stack@.len() == 0 ==> r == Err::<Value, RuntimeError>(RuntimeError::StackUnderflow),
        old(frame).stack@.len() > 0 ==> (r matches Ok(v) && v@ == models(old(frame).stack@).last()
            && models(final(frame).stack@) == models(old(frame).stack@).drop_last()),
{
    match stack_pop(&mut frame.stack) {
        Some(v) => Ok(v),
        None => Err(RuntimeError::StackUnderflow),
    }
}

/// Pops a reference and gives its position.
fn pop_ref(frame: &mut Frame) -> (r: Result<usize, RuntimeError>)
    ensures
        final(frame).code == old(frame).code,
        final(frame).ip == old(frame).ip,
        r == top_ref(models(old(frame).stack@)),
        old(frame).stack@.len() > 0 ==> models(final(frame).stack@) == models(old(frame).stack@).drop_last(),
{
    let v = pop(frame)?;
    match heap_ref(&v) {
        Some(h) => Ok(h),
        None => Err(RuntimeError::BadReference),
    }
}

/// Pops a string reference and gives the text of its instance.
fn pop_string(rc: &ReferenceCounter, frame: &mut Frame) -> (r: Result<Vec<char>, RuntimeError>)
    ensures
        final(frame).code == old(frame).code,
        final(frame).ip == old(frame).ip,
        old(frame).stack@.len() == 0 ==> r == Err::<Vec<char>, RuntimeError>(RuntimeError::StackUnderflow),
        old(frame).stack@.len() > 0 ==> match string_text(rc.heap@, models(old(frame).stack@).last()) {
            Ok(t) => r matches Ok(x) && x@ == t,
            Err(e) => r == Err::<Vec<char>, RuntimeError>(e),
        },
        old(frame).stack@.len() > 0 ==> models(final(frame).stack@) == models(old(frame).stack@).drop_last(),
{
    match pop(frame)? {
        Value::StringRef(h) => {
            let values = object_values(rc, h)?;
            if values.len() == 0 {
                return Err(RuntimeError::BadReference);
            }
            match &values[0] {
                Value::String(t) => Ok(t.clone()),
                _ => Err(RuntimeError::UnsupportedType),
            }
        },
        _ => Err(RuntimeError::BadReference),
    }
}

/// Whether a built-in function's work is done outside this library for these arguments:
/// input and output, and whatever a float goes into.
pub open spec fn outside_native(f: NativeFunction, args: Seq<ValueModel>) -> bool {
    match f {
        NativeFunction::Print | NativeFunction::Println | NativeFunction::Input | NativeFunction::ConvToFloat
        | NativeFunction::AbsFloat | NativeFunction::PowFloat | NativeFunction::MinFloat | NativeFunction::MaxFloat
        | NativeFunction::SqrtFloat | NativeFunction::Round | NativeFunction::Floor | NativeFunction::Ceil => true,
        NativeFunction::ConvToInt | NativeFunction::ConvToString => args.len() == 1 && args[0] is Float,
        _ => false,
    }
}

/// What built-in `f` gives for `args`, where its work is done here.
pub open spec fn native_gives(f: NativeFunction, args: Seq<Value>, r: Result<Value, RuntimeError>) -> bool {
    match f {
        NativeFunction::ConvToInt => conv_to_int_gives(args, r),
        NativeFunction::ConvToString => conv_to_string_gives(args, r),
        NativeFunction::AbsInt => abs_int_gives(args, r),
        NativeFunction::PowInt => pow_int_gives(args, r),
        NativeFunction::MinInt => min_int_gives(args, r),
        NativeFunction::MaxInt => max_int_gives(args, r),
        NativeFunction::SqrtInt => sqrt_int_gives(args, r),
        NativeFunction::StrLen => str_len_gives(args, r),
        NativeFunction::StrToLower => str_to_lower_gives(args, r),
        NativeFunction::StrToUpper => str_to_upper_gives(args, r),
        NativeFunction::StrGet => str_get_gives(args, r),
        NativeFunction::StrCount => str_count_gives(args, r),
        NativeFunction::StrFind => str_find_gives(args, r),
        NativeFunction::StrIsChar => str_is_char_gives(args, r),
        NativeFunction::StrIsDigit => str_is_digit_gives(args, r),
        NativeFunction::StrTrim => str_trim_gives(args, r),
        NativeFunction::StrTrimLeft => str_trim_left_gives(args, r),
        NativeFunction::StrTrimRight => str_trim_right_gives(args, r),
        NativeFunction::StrReplace => str_replace_gives(args, r),
        _ => true,
    }
}

/// A value as an argument of a built-in function: a string reference stands for the first
/// value of its instance; any other value for itself.
pub open spec fn arg_value(heap: Seq<HeapObject>, v: ValueModel) -> Result<ValueModel, RuntimeError> {
    match v {
        ValueModel::StringRef(h) => if h >= heap.len() || heap[h as int].values().len() == 0 {
            Err(RuntimeError::BadReference)
        } else {
            Ok(heap[h as int].values()[0])
        },
        _ => Ok(v),
    }
}

/// The arguments that the values `vs` stand for, in order; the first that fails decides.
pub open spec fn args_of(heap: Seq<HeapObject>, vs: Seq<ValueModel>) -> Result<Seq<ValueModel>, RuntimeError>
    decreases vs.len(),
{
    if vs.len() == 0 {
        Ok(Seq::empty())
    } else {
        match args_of(heap, vs.drop_last()) {
            Err(e) => Err(e),
            Ok(a) => match arg_value(heap, vs.last()) {
                Ok(x) => Ok(a.push(x)),
                Err(e) => Err(e),
            },
        }
    }
}

/// Popping `count` values off `st`, each dropping the reference it holds.
pub open spec fn finish_drop(s: Seq<SlotModel>, st: Seq<ValueModel>, count: nat) -> Result<
    (Seq<SlotModel>, Seq<ValueModel>),
    RuntimeError,
>
    decreases count,
{
    if count == 0 {
        Ok((s, st))
    } else if st.len() == 0 {
        Err(RuntimeError::StackUnderflow)
    } else {
        match drop_value_ref(s, st.last()) {
            Err(e) => Err(e),
            Ok(s1) => finish_drop(s1, st.drop_last(), (count - 1) as nat),
        }
    }
}

/// The end of a call of a built-in function with `count` arguments that gave `output`:
/// the arguments are popped (dropping their references), the heap is swept, and the output
/// is pushed (a string given by an input/output function in a new string instance).
pub open spec fn finish_step(s: Seq<SlotModel>, st: Seq<ValueModel>, count: nat, output: ValueModel, io: bool) -> Result<
    (Seq<SlotModel>, Seq<ValueModel>),
    RuntimeError,
> {
    match finish_drop(s, st, count) {
        Err(e) => Err(e),
        Ok((s1, st1)) => match sweep(s1, s1.len() as int) {
            None => Err(RuntimeError::BadReference),
            Some(s2) => match output {
                ValueModel::String(t) => if io {
                    Ok((
                        s2.push(SlotModel { counted: true, count: 1, values: seq![ValueModel::String(t)] }),
                        st1.push(ValueModel::StringRef(s2.len() as usize)),
                    ))
                } else {
                    Ok((s2, st1.push(output)))
                },
                _ => Ok((s2, st1.push(output))),
            },
        },
    }
}

/// Runs a built-in function whose work this library does; `None` where it is done outside.
pub fn call_native(f: NativeFunction, args: &Vec<Value>) -> (r: Option<Result<Value, RuntimeError>>)
    ensures
        r is None <==> outside_native(f, models(args@)),
        r matches Some(res) ==> native_gives(f, args@, res),
{
    proof {
        if args@.len() == 1 {
            assert(models(args@)[0] == args@[0]@);
        }
    }
    let float_arg = args.len() == 1 && matches!(args[0], Value::Float(_));
    match f {
        NativeFunction::ConvToInt => if float_arg { None } else { Some(conv_to_int(args)) },
        NativeFunction::ConvToString => if float_arg { None } else { Some(conv_to_string(args)) },
        NativeFunction::AbsInt => Some(abs_int(args)),
        NativeFunction::PowInt => Some(pow_int(args)),
        NativeFunction::MinInt => Some(min_int(args)),
        NativeFunction::MaxInt => Some(max_int(args)),
        NativeFunction::SqrtInt => Some(sqrt_int(args)),
        NativeFunction::StrLen => Some(str_len(args)),
        NativeFunction::StrToLower => Some(str_to_lower(args)),
        NativeFunction::StrToUpper => Some(str_to_upper(args)),
        NativeFunction::StrGet => Some(str_get(args)),
        NativeFunction::StrCount => Some(str_count(args)),
        NativeFunction::StrFind => Some(str_find(args)),
        NativeFunction::StrIsChar => Some(str_is_char(args)),
        NativeFunction::StrIsDigit => Some(str_is_digit(args)),
        NativeFunction::StrTrim => Some(str_trim(args)),
        NativeFunction::StrTrimLeft => Some(str_trim_left(args)),
        NativeFunction::StrTrimRight => Some(str_trim_right(args)),
        NativeFunction::StrReplace => Some(str_replace(args)),
        _ => None,
    }
}

/// The built-in function at heap position `index`, with its argument count.
fn native_at(rc: &ReferenceCounter, index: usize) -> (r: Result<(NativeFunction, usize), RuntimeError>)
    ensures
        r == native_of(rc.heap@, index),
{
    if index >= rc.heap.len() {
        return Err(RuntimeError::BadReference);
    }
    match &rc.heap[index] {
        HeapObject::Native(n) => Ok((n.function, n.arg_count)),
        _ => Err(RuntimeError::BadReference),
    }
}

/// The arguments of a call: the top `count` values of `stack`, in order, each string
/// reference replaced by its instance's first value.
fn call_args(rc: &ReferenceCounter, stack: &Vec<Value>, count: usize) -> (r: Result<Vec<Value>, RuntimeError>)
    requires
        count <= stack@.len(),
    ensures
        match args_of(rc.heap@, models(stack@).subrange(stack@.len() - count, stack@.len() as int)) {
            Ok(a) => r matches Ok(v) && models(v@) == a,
            Err(e) => r == Err::<Vec<Value>, RuntimeError>(e),
        },
{
    let ghost st = models(stack@);
    let start = stack.len() - count;
    let mut args: Vec<Value> = Vec::new();
    let mut k: usize = start;
    assert(st.subrange(start as int, start as int) =~= Seq::<ValueModel>::empty());
    assert(models(args@) =~= Seq::<ValueModel>::empty());
    while k < stack.len()
        invariant
            start <= k <= stack@.len(),
            start == stack@.len() - count,
            st == models(stack@),
            args_of(rc.heap@, st.subrange(start as int, k as int)) == Ok::<Seq<ValueModel>, RuntimeError>(models(args@)),
        decreases stack@.len() - k,
    {
        let ghost before = models(args@);
        proof {
            assert(st.subrange(start as int, k + 1) =~= st.subrange(start as int, k as int).push(st[k as int]));
            assert(st.subrange(start as int, k + 1).drop_last() =~= st.subrange(start as int, k as int));
        }
        let v = match string_of(rc, stack[k].copy()) {
            Ok(v) => v,
            Err(e) => {
                proof {
                    assert(args_of(rc.heap@, st.subrange(start as int, k + 1)) == Err::<Seq<ValueModel>, RuntimeError>(e));
                    lemma_args_of_extend(rc.heap@, st.subrange(start as int, st.len() as int), (k + 1 - start) as int);
                    assert(st.subrange(start as int, st.len() as int).take((k + 1 - start) as int) =~= st.subrange(start as int, k + 1));
                }
                return Err(e);
            },
        };
        let ghost vm = v@;
        args.push(v);
        proof {
            assert(models(args@) =~= before.push(vm));
        }
        k = k + 1;
    }
    Ok(args)
}

/// Where a prefix of some values fails as arguments, all of them fail alike.
proof fn lemma_args_of_extend(heap: Seq<HeapObject>, vs: Seq<ValueModel>, k: int)
    requires
        0 <= k <= vs.len(),
        args_of(heap, vs.take(k)) is Err,
    ensures
        args_of(heap, vs) == args_of(heap, vs.take(k)),
    decreases vs.len() - k,
{
    if k < vs.len() {
        assert(vs.take(k + 1).drop_last() =~= vs.take(k));
        lemma_args_of_extend(heap, vs, k + 1);
    } else {
        assert(vs.take(k) =~= vs);
    }
}

/// Ends a call of a built-in function: drops the references among its `count`
/// arguments and pops them, sweeps the heap, and pushes the result (a string result of
/// an input/output function in a new string instance).
fn finish(rc: &mut ReferenceCounter, frame: &mut Frame, count: usize, output: Value, io: bool) -> (r: Result<(), RuntimeError>)
    ensures
        final(frame).code == old(frame).code,
        final(frame).ip == old(frame).ip,
        match finish_step(old(rc).slots(), models(old(frame).stack@), count as nat, output@, io) {
            Ok((s2, st2)) => r is Ok && final(rc).slots() == s2 && models(final(frame).stack@) == st2,
            Err(e) => r == Err::<(), RuntimeError>(e),
        },
{
    let ghost s0 = rc.slots();
    let ghost st0 = models(frame.stack@);
    let mut k: usize = 0;
    while k < count
        invariant
            frame.code == old(frame).code,
            frame.ip == old(frame).ip,
            k <= count,
            s0 == old(rc).slots(),
            st0 == models(old(frame).stack@),
            finish_drop(s0, st0, count as nat) == finish_drop(rc.slots(), models(frame.stack@), (count - k) as nat),
        decreases count - k,
    {
        let v = pop(frame)?;
        dec_ref(rc, &v)?;
        k = k + 1;
    }
    let ghost s1 = rc.slots();
    let ghost st1 = models(frame.stack@);
    rc.try_remove()?;
    assert(rc.slots().len() == rc.heap@.len());
    let ghost s2 = rc.slots();
    assert(finish_drop(s0, st0, count as nat) == Ok::<(Seq<SlotModel>, Seq<ValueModel>), RuntimeError>((s1, st1)));
    match output {
        Value::String(t) => {
            if io {
                let mut instance = StructInstance::new();
                instance.fields_values.push(Value::String(t));
                let ghost inst1 = instance;
                let pos = allocate(rc, instance);
                stack_push(&mut frame.stack, Value::StringRef(pos));
                proof {
                    assert(models(inst1.fields_values@) =~= seq![ValueModel::String(t@)]);
                    assert(rc.slots() =~= s2.push(slot_of(HeapObject::Instance(inst1))));
                }
            } else {
                stack_push(&mut frame.stack, Value::String(t));
            }
        },
        other => {
            stack_push(&mut frame.stack, other);
        },
    }
    Ok(())
}

/// The outcome a step gives its machine: a call entered goes on running.
pub open spec fn outcome_of(r: Result<Next, RuntimeError>) -> Result<Outcome, RuntimeError> {
    match r {
        Ok(Next::Stay(o)) => Ok(o),
        Ok(Next::Enter(_)) => Ok(Outcome::Running),
        Err(e) => Err(e),
    }
}

/// The built-in function at heap position `index`, with its argument count.
pub open spec fn native_of(heap: Seq<HeapObject>, index: usize) -> Result<(NativeFunction, usize), RuntimeError> {
    if index >= heap.len() {
        Err(RuntimeError::BadReference)
    } else {
        match heap[index as int] {
            HeapObject::Native(n) => Ok((n.function, n.arg_count)),
            _ => Err(RuntimeError::BadReference),
        }
    }
}

/// What calling built-in `f` with the top `count` values of `st` comes to, ending with
/// `r` on the slots `s2` and stack `st2`: the arguments are taken as `args_of` says; a
/// built-in whose work is done outside is handed out with them; any other gives what
/// `native_gives` says, and its call ends as `finish_step` says.
pub open spec fn native_done(
    heap: Seq<HeapObject>,
    st: Seq<ValueModel>,
    f: NativeFunction,
    count: usize,
    io: bool,
    s2: Seq<SlotModel>,
    st2: Seq<ValueModel>,
    r: Result<Outcome, RuntimeError>,
) -> bool {
    if count > st.len() {
        r matches Err(x) && x == RuntimeError::StackUnderflow
    } else {
        match args_of(heap, st.subrange(st.len() - count, st.len() as int)) {
            Err(e) => r matches Err(x) && x == e,
            Ok(args) => if outside_native(f, args) {
                r matches Ok(Outcome::Call(f2, a2)) && f2 == f && models(a2@) == args
            } else {
                exists|a: Seq<Value>, res: Result<Value, RuntimeError>|
                    #![trigger native_gives(f, a, res)]
                    models(a) == args && native_gives(f, a, res) && match res {
                        Err(e) => r matches Err(x) && x == e,
                        Ok(out) => match finish_step(heap_slots(heap), st, count as nat, out@, io) {
                            Ok((s3, st3)) => r matches Ok(Outcome::Running) && s2 == s3 && st2 == st3,
                            Err(e) => r matches Err(x) && x == e,
                        },
                    }
            },
        }
    }
}

/// Calls a built-in function with the top `count` values of the frame's stack: does
/// its work here, or hands it out and waits.
fn native_call(rc: &mut ReferenceCounter, pending: &mut Pending, frame: &mut Frame, f: NativeFunction, count: usize, io: bool) -> (r: Result<Next, RuntimeError>)
    ensures
        final(frame).code == old(frame).code,
        final(frame).ip == old(frame).ip,
        (r matches Ok(Next::Stay(Outcome::Running)) || r matches Ok(Next::Enter(_))) ==> *final(pending) == *old(pending),
        r matches Ok(Next::Stay(Outcome::Call(_, _))) ==> *final(pending) is Call,
        !(r matches Ok(Next::Stay(Outcome::Float(_, _, _)))) && !(r matches Ok(Next::Stay(Outcome::FloatNegate(_)))),
        !(r matches Ok(Next::Stay(Outcome::Finished))),
        !(r matches Ok(Next::Enter(_))),
        native_done(old(rc).heap@, models(old(frame).stack@), f, count, io, final(rc).slots(), models(final(frame).stack@), outcome_of(r)),
        r matches Ok(Next::Stay(Outcome::Call(_, _))) ==> final(rc).heap@ == old(rc).heap@ && final(frame).stack@ == old(frame).stack@
            && *final(pending) == Pending::Call(count, io),
{
    if count > frame.stack.len() {
        return Err(RuntimeError::StackUnderflow);
    }
    let args = call_args(rc, &frame.stack, count)?;
    let ghost heap0 = rc.heap@;
    let ghost st0 = models(frame.stack@);
    let res = call_native(f, &args);
    match res {
        Some(Ok(output)) => {
            finish(rc, frame, count, output, io)?;
            Ok(Next::Stay(Outcome::Running))
        },
        Some(Err(e)) => Err(e),
        None => {
            *pending = Pending::Call(count, io);
            Ok(Next::Stay(Outcome::Call(f, args)))
        },
    }
}

/// Runs an instruction that works on the heap, on calls or outside this library, in
/// `frame` (taken off the machine).
#[verifier::rlimit(40)]
fn exec_heap(rc: &mut ReferenceCounter, pending: &mut Pending, frame: &mut Frame, op: OpCode) -> (r: Result<Next, RuntimeError>)
    ensures
        final(frame).code == old(frame).code,
        final(frame).ip == old(frame).ip,
        (r matches Ok(Next::Stay(Outcome::Running)) || r matches Ok(Next::Enter(_))) ==> *final(pending) == *old(pending),
        r matches Ok(Next::Stay(Outcome::Call(_, _))) ==> *final(pending) is Call,
        (r matches Ok(Next::Stay(Outcome::Float(_, _, _))) || r matches Ok(Next::Stay(Outcome::FloatNegate(_))))
            ==> *final(pending) == Pending::Value,
        !(r matches Ok(Next::Stay(Outcome::Finished))),
        match heap_step(op, old(rc).heap@, models(old(frame).stack@)) {
            Some(Ok((s2, st2))) => {
                &&& r matches Ok(Next::Stay(Outcome::Running))
                &&& final(rc).slots() == s2
                &&& models(final(frame).stack@) == st2
                &&& others_kept(old(rc).heap@, final(rc).heap@)
                &&& !(op is RF_REMOVE) ==> kinds(final(rc).heap@) == if allocates(op) {
                    kinds(old(rc).heap@).push(true)
                } else {
                    kinds(old(rc).heap@)
                }
            },
            Some(Err(e)) => r matches Err(x) && x == e,
            None => true,
        },
        op is LIST_SORT ==> match sort_check(old(rc).heap@, models(old(frame).stack@)) {
            Err(e) => r matches Err(x) && x == e,
            Ok(h) => {
                &&& r matches Ok(Next::Stay(Outcome::Running))
                &&& models(final(frame).stack@) == models(old(frame).stack@).drop_last()
                &&& kinds(final(rc).heap@) == kinds(old(rc).heap@)
                &&& exists|out: Seq<ValueModel>| #![trigger set_values(old(rc).heap@, h, out)]
                    sorted_values(old(rc).heap@[h as int].values(), out)
                    && final(rc).slots() == set_values(old(rc).heap@, h, out)
            },
        },
        match call_step(op, old(rc).heap@, models(old(frame).stack@)) {
            Some(Ok((code, count))) => {
                let st = models(old(frame).stack@);
                &&& r matches Ok(Next::Enter(f)) && f.code == code && f.ip == 0
                    && models(f.stack@) == st.subrange(st.len() - count, st.len() as int)
                &&& models(final(frame).stack@) == st.subrange(0, st.len() - count)
                &&& final(rc).heap@ == old(rc).heap@
            },
            Some(Err(e)) => r matches Err(x) && x == e,
            None => true,
        },
        match float_step(op, models(old(frame).stack@)) {
            Some(Ok((fop, b, a))) => {
                &&& r matches Ok(Next::Stay(Outcome::Float(f2, b2, a2))) && f2 == fop && b2@ == b && a2@ == a
                &&& models(final(frame).stack@) == models(old(frame).stack@).drop_last().drop_last()
                &&& final(rc).heap@ == old(rc).heap@
            },
            Some(Err(e)) => r matches Err(x) && x == e,
            None => true,
        },
        op is NEGATE && old(frame).stack@.len() > 0 && models(old(frame).stack@).last() is Float ==> {
            &&& r matches Ok(Next::Stay(Outcome::FloatNegate(t))) && t@ == models(old(frame).stack@).last()->Float_0
            &&& models(final(frame).stack@) == models(old(frame).stack@).drop_last()
            &&& final(rc).heap@ == old(rc).heap@
        },
        inert(op) ==> {
            &&& r matches Ok(Next::Stay(Outcome::Running))
            &&& final(frame).stack@ == old(frame).stack@
            &&& final(rc).heap@ == old(rc).heap@
            &&& *final(pending) == *old(pending)
        },
        op matches OpCode::NATIVE_FN_CALL(index) ==> match native_of(old(rc).heap@, index) {
            Err(e) => r matches Err(x) && x == e,
            Ok((f, count)) => if old(frame).stack@.len() == 0 {
                r matches Err(x) && x == RuntimeError::StackUnderflow
            } else {
                native_done(old(rc).heap@, models(old(frame).stack@), f, count, false, final(rc).slots(),
                    models(final(frame).stack@), outcome_of(r))
            },
        },
        op matches OpCode::IO_FN_CALL(index, count) ==> match native_of(old(rc).heap@, index) {
            Err(e) => r matches Err(x) && x == e,
            Ok((f, _)) => native_done(old(rc).heap@, models(old(frame).stack@), f, count, true, final(rc).slots(),
                models(final(frame).stack@), outcome_of(r)),
        },
        (op is NATIVE_FN_CALL || op is IO_FN_CALL) ==> (r matches Ok(Next::Stay(Outcome::Call(_, _)))
            ==> final(rc).heap@ == old(rc).heap@ && final(frame).stack@ == old(frame).stack@),
        (op is NATIVE_FN_CALL || op is IO_FN_CALL) ==> !(r matches Ok(Next::Enter(_))),
        op matches OpCode::NATIVE_FN_CALL(index) ==> (r matches Ok(Next::Stay(Outcome::Call(_, _)))
            ==> native_of(old(rc).heap@, index) matches Ok((_, count)) && *final(pending) == Pending::Call(count, false)),
        op matches OpCode::IO_FN_CALL(_, count) ==> (r matches Ok(Next::Stay(Outcome::Call(_, _)))
            ==> *final(pending) == Pending::Call(count, true)),
{
    match op {
        OpCode::STRING_DEC(_) | OpCode::STRING_DEC_VALUE(_) | OpCode::INSTANCE_DEC(_, _) => {
            alloc_op(rc, frame, op)?;
        },
        OpCode::GET_INSTANCE_FIELD(_, _) | OpCode::SET_INSTANCE_FIELD(_, _) | OpCode::GET_LIST_FIELD(_)
        | OpCode::SET_LIST_FIELD(_) => {
            field_op(rc, frame, &op)?;
        },
        OpCode::LIST_PUSH | OpCode::LIST_POP | OpCode::LIST_INSERT | OpCode::LIST_REMOVE | OpCode::LIST_LEN => {
            list_op(rc, frame, &op)?;
        },
        OpCode::LIST_SORT => {
            list_sort(rc, frame)?;
        },
        OpCode::POP_UNUSED | OpCode::DEC_RC(_) | OpCode::INC_RC(_) | OpCode::RF_REMOVE => {
            count_op(rc, frame, &op)?;
        },
        OpCode::ADD_STRING | OpCode::EQ_STRING | OpCode::NEG_EQ_STRING => {
            string_op(rc, frame, &op)?;
        },
        OpCode::METHOD_CALL(root, index) => {
            if root >= rc.heap.len() {
                return Err(RuntimeError::BadReference);
            }
            let (arg_count, is_self) = match &rc.heap[root] {
                HeapObject::Struct(st) => {
                    if index >= st.methods.len() {
                        return Err(RuntimeError::BadReference);
                    }
                    (st.methods[index].function.arg_count, st.methods[index].function.is_self_arg)
                },
                _ => {
                    return Err(RuntimeError::BadReference);
                },
            };
            if is_self && arg_count == usize::MAX {
                return Err(RuntimeError::Overflow);
            }
            let count = if is_self { arg_count + 1 } else { arg_count };
            if count > frame.stack.len() {
                return Err(RuntimeError::StackUnderflow);
            }
            let ghost st0 = frame.stack@;
            let at = frame.stack.len() - count;
            let stack = frame.stack.split_off(at);
            proof {
                assert(models(stack@) =~= models(st0).subrange(at as int, st0.len() as int));
                assert(models(frame.stack@) =~= models(st0).subrange(0, at as int));
            }
            return Ok(Next::Enter(Frame { code: CodeRef::Method(root, index), stack, ip: 0 }));
        },
        OpCode::FUNCTION_CALL(index) => {
            if index >= rc.heap.len() {
                return Err(RuntimeError::BadReference);
            }
            let count = match &rc.heap[index] {
                HeapObject::Function(f) => f.arg_count,
                _ => {
                    return Err(RuntimeError::BadReference);
                },
            };
            if count > frame.stack.len() {
                return Err(RuntimeError::StackUnderflow);
            }
            let ghost st0 = frame.stack@;
            let at = frame.stack.len() - count;
            let stack = frame.stack.split_off(at);
            proof {
                assert(models(stack@) =~= models(st0).subrange(at as int, st0.len() as int));
                assert(models(frame.stack@) =~= models(st0).subrange(0, at as int));
            }
            return Ok(Next::Enter(Frame { code: CodeRef::Function(index), stack, ip: 0 }));
        },
        OpCode::NATIVE_FN_CALL(index) => {
            let (f, count) = native_at(rc, index)?;
            if frame.stack.len() == 0 {
                return Err(RuntimeError::StackUnderflow);
            }
            return native_call(rc, pending, frame, f, count, false);
        },
        OpCode::IO_FN_CALL(index, count) => {
            let (f, _) = native_at(rc, index)?;
            return native_call(rc, pending, frame, f, count, true);
        },
        OpCode::NEGATE => {
            match pop(frame)? {
                Value::Float(t) => {
                    *pending = Pending::Value;
                    return Ok(Next::Stay(Outcome::FloatNegate(t)));
                },
                _ => {
                    return Err(RuntimeError::UnsupportedType);
                },
            }
        },
        other => {
            match float_op(&other) {
                Some(fop) => {
                    let a = match pop(frame)? {
                        Value::Float(t) => t,
                        _ => {
                            return Err(RuntimeError::UnsupportedType);
                        },
                    };
                    let b = match pop(frame)? {
                        Value::Float(t) => t,
                        _ => {
                            return Err(RuntimeError::UnsupportedType);
                        },
                    };
                    *pending = Pending::Value;
                    return Ok(Next::Stay(Outcome::Float(fop, b, a)));
                },
                None => {},
            }
        },
    }
    Ok(Next::Stay(Outcome::Running))
}


/// Whether position `ip` of the code that `code` names holds an instruction that can run
/// (any but a declaration).
pub open spec fn fetchable(heap: Seq<HeapObject>, code: CodeRef, ip: int) -> bool {
    chunk_at(heap, code) matches Some(c) && 0 <= ip < c.code@.len() && !(c.code@[ip].op is FUNCTION_DEC
        || c.code@[ip].op is STRUCT_DEC)
}

/// Why fetching at `ip` of the code that `code` names fails: no code there, past its end,
/// or a declaration.
pub open spec fn fetch_error(heap: Seq<HeapObject>, code: CodeRef, ip: int) -> RuntimeError {
    match chunk_at(heap, code) {
        None => RuntimeError::BadReference,
        Some(c) => if ip >= c.code@.len() {
            RuntimeError::CodeOutOfRange
        } else {
            RuntimeError::BadInstruction
        },
    }
}

/// The running call of `vm` can return at once: its stack holds the return value, the
/// next instruction is `END_OF_FN`, and the heap can be swept.
pub open spec fn returns_at_once(vm: VM) -> bool {
    let f = vm.top();
    &&& f.stack@.len() > 0
    &&& fetchable(vm.rc.heap@, f.code, f.ip as int)
    &&& chunk_at(vm.rc.heap@, f.code) matches Some(c)
    &&& c.code@[f.ip as int].op == OpCode::END_OF_FN
    &&& sweep(vm.rc.slots(), vm.rc.heap@.len() as int) is Some
}

/// The next instruction of `frame` (a copy), moving the frame past it.
fn fetch(rc: &ReferenceCounter, frame: &mut Frame) -> (r: Result<Instruction, RuntimeError>)
    ensures
        final(frame).code == old(frame).code,
        final(frame).stack == old(frame).stack,
        r is Ok ==> final(frame).ip == old(frame).ip + 1,
        r is Err ==> final(frame).ip == old(frame).ip,
        r matches Ok(i) ==> chunk_at(rc.heap@, old(frame).code) matches Some(c) && old(frame).ip < c.code@.len()
            && same_op(i.op, c.code@[old(frame).ip as int].op) && i.line == c.code@[old(frame).ip as int].line,
        r is Ok <==> fetchable(rc.heap@, old(frame).code, old(frame).ip as int),
        r matches Err(e) ==> e == fetch_error(rc.heap@, old(frame).code, old(frame).ip as int),
{
    let fetched = match code_chunk(rc, frame.code) {
        None => Err(RuntimeError::BadReference),
        Some(chunk) => {
            if frame.ip >= chunk.code.len() {
                Err(RuntimeError::CodeOutOfRange)
            } else {
                let line = chunk.code[frame.ip].line;
                match copy_op(&chunk.code[frame.ip].op) {
                    Some(op) => Ok(Instruction { op, line }),
                    None => Err(RuntimeError::BadInstruction),
                }
            }
        },
    };
    if fetched.is_ok() {
        frame.ip = frame.ip + 1;
    }
    fetched
}

/// Whether a name is `main`, ignoring the case of ASCII letters.
pub open spec fn main_like(name: Seq<char>) -> bool {
    name.map_values(|c: char| crate::errors::lower(c)) == seq!['m', 'a', 'i', 'n']
}

/// Whether the heap holds, at `m`, a function named like `main`.
pub open spec fn main_at(heap: Seq<HeapObject>, m: usize) -> bool {
    &&& m < heap.len()
    &&& match heap[m as int] {
        HeapObject::Function(g) => main_like(g.name@),
        _ => false,
    }
}

/// Whether instruction `i` declares a function named like `main`.
pub open spec fn declares_main(i: Instruction) -> bool {
    i.op matches OpCode::FUNCTION_DEC(g) && main_like(g.name@)
}

/// Whether a name is `main`, ignoring the case of ASCII letters.
fn is_main(name: &[char]) -> (b: bool)
    ensures
        b == main_like(name@),
{
    let lowered = crate::errors::to_ascii_lower(name);
    crate::tokens::chars_equal(lowered.as_slice(), &['m', 'a', 'i', 'n'])
}

/// `post` is `pre` after fetching `i`, the running frame's next instruction: the frame
/// moves past it and nothing else changes.
pub open spec fn fetched(pre: VM, post: VM, i: Instruction) -> bool {
    &&& post.running()
    &&& post.frames@.len() == pre.frames@.len()
    &&& forall|k: int| 0 <= k < pre.frames@.len() - 1 ==> post.frames@[k] == pre.frames@[k]
    &&& post.top().code == pre.top().code
    &&& post.top().stack == pre.top().stack
    &&& post.top().ip == pre.top().ip + 1
    &&& post.rc == pre.rc
    &&& post.break_loop == pre.break_loop
    &&& post.pending == pre.pending
    &&& chunk_at(pre.rc.heap@, pre.top().code) matches Some(c)
    &&& pre.top().ip < c.code@.len()
    &&& same_op(i.op, c.code@[pre.top().ip as int].op)
    &&& i.line == c.code@[pre.top().ip as int].line
}

/// The heap slots after the rest of a returning call, from `ip` of `code` up to
/// `END_OF_FN`: each `DEC_RC(pos)` drops a reference to what local `pos` of `stack` refers
/// to, each `POP` pops `stack`, and other instructions change nothing. `None` where an
/// instruction there cannot be fetched, a reference is wrong or a count would drop below
/// zero, or the code ends first.
pub open spec fn unwound(code: Seq<Instruction>, ip: int, stack: Seq<ValueModel>, slots: Seq<SlotModel>) -> Option<
    Seq<SlotModel>,
>
    decreases code.len() - ip,
{
    if ip < 0 || ip >= code.len() {
        None
    } else {
        match code[ip].op {
            OpCode::END_OF_FN => Some(slots),
            OpCode::FUNCTION_DEC(_) | OpCode::STRUCT_DEC(_) => None,
            OpCode::DEC_RC(pos) => match ref_at(stack, pos as int) {
                Ok(h) => if h < slots.len() && (slots[h as int].counted ==> slots[h as int].count > 0) {
                    unwound(code, ip + 1, stack, slots.update(h as int, decremented(slots[h as int])))
                } else {
                    None
                },
                Err(_) => None,
            },
            OpCode::POP => unwound(code, ip + 1, if stack.len() > 0 { stack.drop_last() } else { stack }, slots),
            _ => unwound(code, ip + 1, stack, slots),
        }
    }
}

/// The heap slots after the running call of `vm` returns: its top value taken off, the
/// rest of its code run up to `END_OF_FN` as `unwound` says, then the heap swept; `None`
/// where the return fails.
pub open spec fn return_tail(vm: VM) -> Option<Seq<SlotModel>> {
    let f = vm.top();
    if f.stack@.len() == 0 {
        None
    } else {
        match chunk_at(vm.rc.heap@, f.code) {
            None => None,
            Some(c) => match unwound(c.code@, f.ip as int, models(f.stack@).drop_last(), vm.rc.slots()) {
                None => None,
                Some(s1) => sweep(s1, s1.len() as int),
            },
        }
    }
}

/// `post` is `pre` after returning from the running call: the frame is gone, and its top
/// value is pushed on the caller's stack, which goes on where it stopped.
pub open spec fn returned(pre: VM, post: VM) -> bool {
    let n = pre.frames@.len();
    let caller = pre.frames@[n - 2];
    &&& post.ready()
    &&& post.frames@.len() == n - 1
    &&& pre.top().stack@.len() > 0
    &&& models(post.top().stack@) == models(caller.stack@).push(models(pre.top().stack@).last())
    &&& post.top().code == caller.code
    &&& post.top().ip == caller.ip
    &&& post.frames@.drop_last() == pre.frames@.subrange(0, n - 2)
    &&& return_tail(pre) matches Some(s) && post.rc.slots() == s
    &&& recounted_or_freed(pre.rc.heap@, post.rc.heap@)
}

/// One step of `run` from `pre` to `post` with result `r`: the next instruction cannot be
/// fetched (an error), or it is fetched and then a `RETURN` of the main function ends the
/// program with the heap emptied, another `RETURN` returns from the call, and any other
/// instruction is run as `instruction_done` says.
pub open spec fn run_step(pre: VM, post: VM, r: Result<Outcome, RuntimeError>) -> bool {
    ||| (!fetchable(pre.rc.heap@, pre.top().code, pre.top().ip as int) && r == Err::<Outcome, RuntimeError>(
        fetch_error(pre.rc.heap@, pre.top().code, pre.top().ip as int),
    ))
    ||| exists|mid: VM, i: Instruction| #[trigger] fetched(pre, mid, i) && if i.op is RETURN {
        if mid.ip == 0 {
            r == Ok::<Outcome, RuntimeError>(Outcome::Finished) && post == (VM { rc: post.rc, ..mid })
                && post.rc.heap@.len() == 0
        } else {
            (r is Ok <==> return_tail(mid) is Some) && (r is Ok ==> r == Ok::<Outcome, RuntimeError>(Outcome::Running)
                && returned(mid, post))
        }
    } else {
        instruction_done(mid, i, post, r)
    }
}

/// `post` is reached from `pre` by `n` steps that each left the program running.
pub open spec fn reached(pre: VM, post: VM, n: nat) -> bool
    decreases n,
{
    if n == 0 {
        post == pre
    } else {
        exists|mid: VM| reached(pre, mid, (n - 1) as nat) && #[trigger] run_step(mid, post, Ok::<Outcome, RuntimeError>(Outcome::Running))
    }
}

/// What running one instruction does to the machine: `pre` before, `post` after, `r` the
/// result, for each kind of instruction.
pub open spec fn instruction_done(pre: VM, instruction: Instruction, post: VM, r: Result<Outcome, RuntimeError>) -> bool {
    &&& (r is Ok ==> post.running())
    &&& (r matches Ok(Outcome::Running) ==> post.ready())
    &&& (r matches Ok(Outcome::Call(_, _)) ==> post.pending is Call)
    &&& ((r matches Ok(Outcome::Float(_, _, _)) || r matches Ok(Outcome::FloatNegate(_))) ==> post.pending
        == Pending::Value)
    &&& (!(r matches Ok(Outcome::Finished)))
    &&& (match pure_step(instruction.op, pre.konst(instruction.op), pre.top_state()) {
        Some(Ok(s2)) => {
            &&& r matches Ok(Outcome::Running)
            &&& post.top_state() == s2
            &&& post.top().code == pre.top().code
            &&& post.frames@.len() == pre.frames@.len()
            &&& forall|i: int| 0 <= i < pre.frames@.len() - 1 ==> post.frames@[i] == pre.frames@[i]
            &&& post.rc == pre.rc
            &&& post.pending == pre.pending
        },
        Some(Err(e)) => r matches Err(x) && x == e,
        None => true,
    })
    &&& (match heap_step(instruction.op, pre.rc.heap@, pre.top_state().stack) {
        Some(Ok((s2, st2))) => {
            &&& r matches Ok(Outcome::Running)
            &&& post.rc.slots() == s2
            &&& post.top_state().stack == st2
            &&& others_kept(pre.rc.heap@, post.rc.heap@)
            &&& post.top().code == pre.top().code
            &&& post.top().ip == pre.top().ip
            &&& post.frames@.drop_last() == pre.frames@.drop_last()
            &&& !(instruction.op is RF_REMOVE) ==> kinds(post.rc.heap@) == if allocates(instruction.op) {
                kinds(pre.rc.heap@).push(true)
            } else {
                kinds(pre.rc.heap@)
            }
        },
        Some(Err(e)) => r matches Err(x) && x == e,
        None => true,
    })
    &&& (instruction.op is LIST_SORT ==> match sort_check(pre.rc.heap@, pre.top_state().stack) {
        Err(e) => r matches Err(x) && x == e,
        Ok(h) => {
            &&& r matches Ok(Outcome::Running)
            &&& post.top_state().stack == pre.top_state().stack.drop_last()
            &&& post.frames@.drop_last() == pre.frames@.drop_last()
            &&& exists|out: Seq<ValueModel>| #![trigger set_values(pre.rc.heap@, h, out)]
                sorted_values(pre.rc.heap@[h as int].values(), out)
                && post.rc.slots() == set_values(pre.rc.heap@, h, out)
        },
    })
    &&& (match call_step(instruction.op, pre.rc.heap@, pre.top_state().stack) {
        Some(Ok((code, count))) => {
            let st = pre.top_state().stack;
            let n = pre.frames@.len();
            &&& r matches Ok(Outcome::Running)
            &&& post.frames@.len() == n + 1
            &&& post.top().code == code
            &&& post.top().ip == 0
            &&& models(post.top().stack@) == st.subrange(st.len() - count, st.len() as int)
            &&& post.frames@[n - 1].code == pre.top().code
            &&& post.frames@[n - 1].ip == pre.top().ip
            &&& models(post.frames@[n - 1].stack@) == st.subrange(0, st.len() - count)
            &&& post.frames@.subrange(0, n - 1) == pre.frames@.drop_last()
            &&& post.rc.heap@ == pre.rc.heap@
        },
        Some(Err(e)) => r matches Err(x) && x == e,
        None => true,
    })
    &&& (match float_step(instruction.op, pre.top_state().stack) {
        Some(Ok((fop, b, a))) => {
            &&& r matches Ok(Outcome::Float(f2, b2, a2)) && f2 == fop && b2@ == b && a2@ == a
            &&& post.top_state().stack == pre.top_state().stack.drop_last().drop_last()
            &&& post.frames@.drop_last() == pre.frames@.drop_last()
            &&& post.rc.heap@ == pre.rc.heap@
        },
        Some(Err(e)) => r matches Err(x) && x == e,
        None => true,
    })
    &&& (instruction.op is NEGATE && pre.top_state().stack.len() > 0 && pre.top_state().stack.last() is Float
        ==> {
        &&& r matches Ok(Outcome::FloatNegate(t)) && t@ == pre.top_state().stack.last()->Float_0
        &&& post.top_state().stack == pre.top_state().stack.drop_last()
        &&& post.frames@.drop_last() == pre.frames@.drop_last()
        &&& post.rc.heap@ == pre.rc.heap@
    })
    &&& (instruction.op matches OpCode::NATIVE_FN_CALL(index) ==> match native_of(pre.rc.heap@, index) {
        Err(e) => r matches Err(x) && x == e,
        Ok((f, count)) => if pre.top_state().stack.len() == 0 {
            r matches Err(x) && x == RuntimeError::StackUnderflow
        } else {
            &&& native_done(pre.rc.heap@, pre.top_state().stack, f, count, false,
                post.rc.slots(), post.top_state().stack, r)
            &&& r matches Ok(Outcome::Call(_, _)) ==> post.pending == Pending::Call(count, false)
        },
    })
    &&& (instruction.op matches OpCode::IO_FN_CALL(index, count) ==> match native_of(pre.rc.heap@, index) {
        Err(e) => r matches Err(x) && x == e,
        Ok((f, _)) => {
            &&& native_done(pre.rc.heap@, pre.top_state().stack, f, count, true,
                post.rc.slots(), post.top_state().stack, r)
            &&& r matches Ok(Outcome::Call(_, _)) ==> post.pending == Pending::Call(count, true)
        },
    })
    &&& (instruction.op is NATIVE_FN_CALL || instruction.op is IO_FN_CALL ==> {
        &&& post.frames@.drop_last() == pre.frames@.drop_last()
        &&& post.top().code == pre.top().code
        &&& post.top().ip == pre.top().ip
        &&& r matches Ok(Outcome::Call(_, _)) ==> post.rc.heap@ == pre.rc.heap@
            && post.top().stack@ == pre.top().stack@
    })
    &&& (inert(instruction.op) ==> {
        &&& r matches Ok(Outcome::Running)
        &&& post.top_state() == pre.top_state()
        &&& post.top().code == pre.top().code
        &&& post.frames@.drop_last() == pre.frames@.drop_last()
        &&& post.rc.heap@ == pre.rc.heap@
        &&& post.pending == pre.pending
    })
}

/// The heap objects of the built-in functions, in order.
pub open spec fn native_objects() -> Seq<HeapObject> {
    crate::compiler::native_fns().map_values(|n: crate::objects::NativeFn| HeapObject::Native(n))
}

/// The heap objects of the twelve string methods, in order.
pub open spec fn string_method_objects() -> Seq<HeapObject> {
    crate::strings::string_method_fns().map_values(|n: crate::objects::NativeFn| HeapObject::Native(n))
}

/// The six empty slots that stand for the methods of `List`.
pub open spec fn list_method_slots() -> Seq<HeapObject> {
    Seq::new(6, |k: int| HeapObject::Empty(EmptyObject {}))
}

/// The heap objects that a declaration puts on the heap: a function; a struct, followed,
/// for `String`, by its method functions and, for `List`, by its method slots; nothing for
/// another instruction.
pub open spec fn decl_objects(i: Instruction) -> Seq<HeapObject> {
    match i.op {
        OpCode::FUNCTION_DEC(f) => seq![HeapObject::Function(f)],
        OpCode::STRUCT_DEC(st) => seq![HeapObject::Struct(st)] + if st.name@ == seq!['S', 't', 'r', 'i', 'n', 'g'] {
            string_method_objects()
        } else if st.name@ == seq!['L', 'i', 's', 't'] {
            list_method_slots()
        } else {
            Seq::empty()
        },
        _ => Seq::empty(),
    }
}

/// The heap objects that the declarations of `code` put on the heap, in order.
pub open spec fn heap_layout(code: Seq<Instruction>) -> Seq<HeapObject>
    decreases code.len(),
{
    if code.len() == 0 {
        Seq::empty()
    } else {
        heap_layout(code.drop_last()) + decl_objects(code.last())
    }
}

impl VM {
    /// Runs one instruction of the running frame (already fetched). An instruction that
    /// touches only the frame does exactly what `pure_step` says; a call pushes the callee's
    /// frame; work done outside this library is handed out in the outcome, and the machine
    /// then waits for its result.
    #[verifier::rlimit(40)]
    #[verifier::spinoff_prover]
    pub fn run_instruction(&mut self, instruction: Instruction) -> (r: Result<Outcome, RuntimeError>)
        requires
            old(self).ready(),
        ensures
            r is Ok ==> final(self).running(),
            r matches Ok(Outcome::Running) ==> final(self).ready(),
            r matches Ok(Outcome::Call(_, _)) ==> final(self).pending is Call,
            (r matches Ok(Outcome::Float(_, _, _)) || r matches Ok(Outcome::FloatNegate(_))) ==> final(self).pending
                == Pending::Value,
            !(r matches Ok(Outcome::Finished)),
            match pure_step(instruction.op, old(self).konst(instruction.op), old(self).top_state()) {
                Some(Ok(s2)) => {
                    &&& r matches Ok(Outcome::Running)
                    &&& final(self).top_state() == s2
                    &&& final(self).top().code == old(self).top().code
                    &&& final(self).frames@.len() == old(self).frames@.len()
                    &&& forall|i: int| 0 <= i < old(self).frames@.len() - 1 ==> final(self).frames@[i] == old(self).frames@[i]
                    &&& final(self).rc == old(self).rc
                    &&& final(self).pending == old(self).pending
                },
                Some(Err(e)) => r matches Err(x) && x == e,
                None => true,
            },
            match heap_step(instruction.op, old(self).rc.heap@, old(self).top_state().stack) {
                Some(Ok((s2, st2))) => {
                    &&& r matches Ok(Outcome::Running)
                    &&& final(self).rc.slots() == s2
                    &&& final(self).top_state().stack == st2
                    &&& others_kept(old(self).rc.heap@, final(self).rc.heap@)
                    &&& final(self).top().code == old(self).top().code
                    &&& final(self).top().ip == old(self).top().ip
                    &&& final(self).frames@.drop_last() == old(self).frames@.drop_last()
                    &&& !(instruction.op is RF_REMOVE) ==> kinds(final(self).rc.heap@) == if allocates(instruction.op) {
                        kinds(old(self).rc.heap@).push(true)
                    } else {
                        kinds(old(self).rc.heap@)
                    }
                },
                Some(Err(e)) => r matches Err(x) && x == e,
                None => true,
            },
            instruction.op is LIST_SORT ==> match sort_check(old(self).rc.heap@, old(self).top_state().stack) {
                Err(e) => r matches Err(x) && x == e,
                Ok(h) => {
                    &&& r matches Ok(Outcome::Running)
                    &&& final(self).top_state().stack == old(self).top_state().stack.drop_last()
                    &&& final(self).frames@.drop_last() == old(self).frames@.drop_last()
                    &&& exists|out: Seq<ValueModel>| #![trigger set_values(old(self).rc.heap@, h, out)]
                        sorted_values(old(self).rc.heap@[h as int].values(), out)
                        && final(self).rc.slots() == set_values(old(self).rc.heap@, h, out)
                },
            },
            match call_step(instruction.op, old(self).rc.heap@, old(self).top_state().stack) {
                Some(Ok((code, count))) => {
                    let st = old(self).top_state().stack;
                    let n = old(self).frames@.len();
                    &&& r matches Ok(Outcome::Running)
                    &&& final(self).frames@.len() == n + 1
                    &&& final(self).top().code == code
                    &&& final(self).top().ip == 0
                    &&& models(final(self).top().stack@) == st.subrange(st.len() - count, st.len() as int)
                    &&& final(self).frames@[n - 1].code == old(self).top().code
                    &&& final(self).frames@[n - 1].ip == old(self).top().ip
                    &&& models(final(self).frames@[n - 1].stack@) == st.subrange(0, st.len() - count)
                    &&& final(self).frames@.subrange(0, n - 1) == old(self).frames@.drop_last()
                    &&& final(self).rc.heap@ == old(self).rc.heap@
                },
                Some(Err(e)) => r matches Err(x) && x == e,
                None => true,
            },
            match float_step(instruction.op, old(self).top_state().stack) {
                Some(Ok((fop, b, a))) => {
                    &&& r matches Ok(Outcome::Float(f2, b2, a2)) && f2 == fop && b2@ == b && a2@ == a
                    &&& final(self).top_state().stack == old(self).top_state().stack.drop_last().drop_last()
                    &&& final(self).frames@.drop_last() == old(self).frames@.drop_last()
                    &&& final(self).rc.heap@ == old(self).rc.heap@
                },
                Some(Err(e)) => r matches Err(x) && x == e,
                None => true,
            },
            instruction.op is NEGATE && old(self).top_state().stack.len() > 0 && old(self).top_state().stack.last() is Float
                ==> {
                &&& r matches Ok(Outcome::FloatNegate(t)) && t@ == old(self).top_state().stack.last()->Float_0
                &&& final(self).top_state().stack == old(self).top_state().stack.drop_last()
                &&& final(self).frames@.drop_last() == old(self).frames@.drop_last()
                &&& final(self).rc.heap@ == old(self).rc.heap@
            },
            instruction.op matches OpCode::NATIVE_FN_CALL(index) ==> match native_of(old(self).rc.heap@, index) {
                Err(e) => r matches Err(x) && x == e,
                Ok((f, count)) => if old(self).top_state().stack.len() == 0 {
                    r matches Err(x) && x == RuntimeError::StackUnderflow
                } else {
                    &&& native_done(old(self).rc.heap@, old(self).top_state().stack, f, count, false,
                        final(self).rc.slots(), final(self).top_state().stack, r)
                    &&& r matches Ok(Outcome::Call(_, _)) ==> final(self).pending == Pending::Call(count, false)
                },
            },
            instruction.op matches OpCode::IO_FN_CALL(index, count) ==> match native_of(old(self).rc.heap@, index) {
                Err(e) => r matches Err(x) && x == e,
                Ok((f, _)) => {
                    &&& native_done(old(self).rc.heap@, old(self).top_state().stack, f, count, true,
                        final(self).rc.slots(), final(self).top_state().stack, r)
                    &&& r matches Ok(Outcome::Call(_, _)) ==> final(self).pending == Pending::Call(count, true)
                },
            },
            instruction.op is NATIVE_FN_CALL || instruction.op is IO_FN_CALL ==> {
                &&& final(self).frames@.drop_last() == old(self).frames@.drop_last()
                &&& final(self).top().code == old(self).top().code
                &&& final(self).top().ip == old(self).top().ip
                &&& r matches Ok(Outcome::Call(_, _)) ==> final(self).rc.heap@ == old(self).rc.heap@
                    && final(self).top().stack@ == old(self).top().stack@
            },
            inert(instruction.op) ==> {
                &&& r matches Ok(Outcome::Running)
                &&& final(self).top_state() == old(self).top_state()
                &&& final(self).top().code == old(self).top().code
                &&& final(self).frames@.drop_last() == old(self).frames@.drop_last()
                &&& final(self).rc.heap@ == old(self).rc.heap@
                &&& final(self).pending == old(self).pending
            },
    {
        let mut frame = self.take_frame();
        let konst = match instruction.op {
            OpCode::CONSTANT_FLOAT(i) | OpCode::CONSTANT_INT(i) | OpCode::CONSTANT_BOOL(i) | OpCode::CONSTANT_NULL(i) => {
                match code_chunk(&self.rc, frame.code) {
                    Some(c) => if i < c.values.len() {
                        Some(c.get_value(i))
                    } else {
                        None
                    },
                    None => None,
                }
            },
            _ => None,
        };
        match exec_pure(&mut frame, &mut self.break_loop, &instruction.op, konst) {
            Some(Ok(())) => {
                self.frames.push(frame);
                proof {
                    assert(self.frames@.drop_last() == old(self).frames@.drop_last());
                }
                Ok(Outcome::Running)
            },
            Some(Err(e)) => {
                self.frames.push(frame);
                Err(e)
            },
            None => {
                let next = exec_heap(&mut self.rc, &mut self.pending, &mut frame, instruction.op);
                self.frames.push(frame);
                match next {
                    Ok(Next::Stay(o)) => Ok(o),
                    Ok(Next::Enter(callee)) => {
                        let ghost with_caller = self.frames@;
                        self.frames.push(callee);
                        self.ip = self.frames.len() - 1;
                        proof {
                            assert(self.frames@.subrange(0, old(self).frames@.len() - 1) =~= old(self).frames@.drop_last());
                            assert(self.frames@[old(self).frames@.len() - 1] == with_caller.last());
                        }
                        Ok(Outcome::Running)
                    },
                    Err(e) => Err(e),
                }
            },
        }
    }

    /// Returns from the running call, whose `RETURN` was just fetched: takes the return
    /// value, runs the reference drops and pops that follow up to `END_OF_FN`, leaves the
    /// frame, sweeps the heap, and pushes the value on the caller's stack.
    fn return_from_call(&mut self) -> (r: Result<(), RuntimeError>)
        requires
            old(self).ready(),
            old(self).ip > 0,
        ensures
            r is Ok ==> final(self).ready() && final(self).frames@.len() == old(self).frames@.len() - 1,
            r is Ok ==> {
                let n = old(self).frames@.len();
                let caller = old(self).frames@[n - 2];
                &&& old(self).top().stack@.len() > 0
                &&& models(final(self).top().stack@) == models(caller.stack@).push(models(old(self).top().stack@).last())
                &&& final(self).top().code == caller.code
                &&& final(self).top().ip == caller.ip
                &&& final(self).frames@.drop_last() == old(self).frames@.subrange(0, n - 2)
            },
            returns_at_once(*old(self)) ==> r is Ok,
            r is Ok <==> return_tail(*old(self)) is Some,
            r is Ok ==> return_tail(*old(self)) == Some(final(self).rc.slots()),
            recounted_or_freed(old(self).rc.heap@, final(self).rc.heap@),
    {
        let mut frame = self.take_frame();
        let value = pop(&mut frame)?;
        let ghost returned = value@;
        let ghost code = old(self).top().code;
        let ghost start = match chunk_at(old(self).rc.heap@, code) {
            Some(c) => unwound(c.code@, old(self).top().ip as int, models(old(self).top().stack@).drop_last(), old(self).rc.slots()),
            None => None,
        };
        loop
            invariant_except_break
                returns_at_once(*old(self)) ==> frame.ip == old(self).top().ip && frame.code == old(self).top().code,
                start == match chunk_at(old(self).rc.heap@, code) {
                    Some(c) => unwound(c.code@, frame.ip as int, models(frame.stack@), self.rc.slots()),
                    None => None,
                },
            invariant
                returns_at_once(*old(self)) ==> self.rc == old(self).rc,
                self.ip == old(self).ip,
                self.ip > 0,
                self.frames@ == old(self).frames@.drop_last(),
                self.pending == old(self).pending,
                self.pending == Pending::Nothing,
                old(self).ready(),
                frame.code == code,
                code == old(self).top().code,
                old(self).top().stack@.len() > 0,
                start == match chunk_at(old(self).rc.heap@, code) {
                    Some(c) => unwound(c.code@, old(self).top().ip as int, models(old(self).top().stack@).drop_last(), old(self).rc.slots()),
                    None => None,
                },
                crate::rc::all_recounted(old(self).rc.heap@, self.rc.heap@),
                chunk_at(self.rc.heap@, code) == chunk_at(old(self).rc.heap@, code),
            ensures
                returns_at_once(*old(self)) ==> self.rc == old(self).rc,
                self.ip == old(self).ip,
                self.ip > 0,
                self.frames@ == old(self).frames@.drop_last(),
                self.pending == Pending::Nothing,
                old(self).ready(),
                crate::rc::all_recounted(old(self).rc.heap@, self.rc.heap@),
                start == Some(self.rc.slots()),
            decreases usize::MAX - frame.ip,
        {
            let instruction = fetch(&self.rc, &mut frame)?;
            match instruction.op {
                OpCode::END_OF_FN => {
                    break;
                },
                OpCode::DEC_RC(pos) => {
                    let h = local_ref(&frame, pos)?;
                    self.rc.try_dec_counter(h)?;
                },
                OpCode::POP => {
                    let _ = stack_pop(&mut frame.stack);
                },
                _ => {},
            }
        }
        self.rc.try_remove()?;
        self.ip = self.ip - 1;
        let mut caller = self.take_frame();
        stack_push(&mut caller.stack, value);
        self.frames.push(caller);
        proof {
            assert(self.frames@.drop_last() =~= old(self).frames@.subrange(0, old(self).frames@.len() - 2));
        }
        Ok(())
    }

    /// Whether a frame is running and nothing is awaited from outside.
    pub fn is_ready(&self) -> (b: bool)
        ensures
            b == self.ready(),
    {
        self.frames.len() > 0 && self.ip < self.frames.len() && self.ip + 1 == self.frames.len() && self.pending
            == Pending::Nothing
    }

    /// Runs at most `budget` instructions: stops early where the program ends (the main
    /// function returns), or where work is handed out. A machine that is not ready to run
    /// is refused.
    pub fn run(&mut self, budget: u64) -> (r: Result<Outcome, RuntimeError>)
        ensures
            !old(self).ready() ==> (r matches Err(e) && e == RuntimeError::BadInstruction),
            r matches Ok(Outcome::Running) ==> final(self).ready(),
            r matches Ok(Outcome::Call(_, _)) ==> final(self).running() && final(self).pending is Call,
            (r matches Ok(Outcome::Float(_, _, _)) || r matches Ok(Outcome::FloatNegate(_))) ==> final(self).running()
                && final(self).pending == Pending::Value,
            r matches Ok(Outcome::Finished) ==> final(self).rc.heap@.len() == 0,
            budget == 0 && old(self).ready() ==> (r matches Ok(Outcome::Running) && *final(self) == *old(self)),
            old(self).ready() && (r matches Ok(Outcome::Running)) ==> reached(*old(self), *final(self), budget as nat),
            old(self).ready() && !(r matches Ok(Outcome::Running)) ==> exists|n: nat, mid: VM|
                #![trigger reached(*old(self), mid, n)]
                n < budget && reached(*old(self), mid, n) && run_step(mid, *final(self), r),
    {
        if !self.is_ready() {
            return Err(RuntimeError::BadInstruction);
        }
        let mut steps: u64 = 0;
        while steps < budget
            invariant
                self.ready(),
                old(self).ready(),
                budget == 0 ==> *self == *old(self),
                steps <= budget,
                reached(*old(self), *self, steps as nat),
            decreases budget - steps,
        {
            let ghost pre = *self;
            let fetched_instruction = self.get_instruction();
            let instruction = match fetched_instruction {
                Ok(i) => i,
                Err(e) => {
                    proof {
                        assert(run_step(pre, *self, Err(e)));
                    }
                    return Err(e);
                },
            };
            let ghost mid = *self;
            assert(fetched(pre, mid, instruction));
            match instruction.op {
                OpCode::RETURN => {
                    if self.ip == 0 {
                        self.rc.remove_all();
                        assert(run_step(pre, *self, Ok(Outcome::Finished)));
                        return Ok(Outcome::Finished);
                    }
                    let back = self.return_from_call();
                    match back {
                        Ok(()) => {
                            assert(run_step(pre, *self, Ok(Outcome::Running)));
                        },
                        Err(e) => {
                            assert(run_step(pre, *self, Err(e)));
                            return Err(e);
                        },
                    }
                },
                _ => {
                    let done = self.run_instruction(instruction);
                    assert(instruction_done(mid, instruction, *self, done));
                    assert(run_step(pre, *self, done));
                    match done {
                        Ok(Outcome::Running) => {},
                        other => {
                            return other;
                        },
                    }
                },
            }
            assert(reached(*old(self), *self, (steps + 1) as nat));
            steps = steps + 1;
        }
        Ok(Outcome::Running)
    }

    /// Hands back the result of a float operation the machine handed out: pushes it on the
    /// running frame's stack. Refused where no such result is awaited.
    pub fn resume(&mut self, value: Value) -> (r: Result<(), RuntimeError>)
        ensures
            r is Ok <==> old(self).running() && old(self).pending == Pending::Value,
            r is Ok ==> final(self).ready() && models(final(self).top().stack@) == models(old(self).top().stack@).push(
                value@,
            ) && final(self).frames@.len() == old(self).frames@.len(),
            r is Ok ==> final(self).top().code == old(self).top().code && final(self).top().ip == old(self).top().ip
                && final(self).frames@.drop_last() == old(self).frames@.drop_last() && final(self).rc.heap@ == old(
                self,
            ).rc.heap@ && final(self).break_loop == old(self).break_loop,
    {
        if !(self.frames.len() > 0 && self.ip < self.frames.len() && self.ip + 1 == self.frames.len()) || self.pending
            != Pending::Value {
            return Err(RuntimeError::BadInstruction);
        }
        let mut frame = self.take_frame();
        stack_push(&mut frame.stack, value);
        self.frames.push(frame);
        self.pending = Pending::Nothing;
        Ok(())
    }

    /// Hands back the result of a built-in function the machine handed out: ends the call
    /// as one done here ends. Refused where no such result is awaited.
    pub fn finish_call(&mut self, output: Value) -> (r: Result<(), RuntimeError>)
        ensures
            !(old(self).running() && old(self).pending is Call) ==> r == Err::<(), RuntimeError>(
                RuntimeError::BadInstruction,
            ),
            old(self).running() ==> match old(self).pending {
                Pending::Call(count, io) => match finish_step(old(self).rc.slots(), old(self).top_state().stack, count as nat, output@, io) {
                    Ok((s2, st2)) => {
                        &&& r is Ok
                        &&& final(self).ready()
                        &&& final(self).rc.slots() == s2
                        &&& final(self).top_state().stack == st2
                        &&& final(self).top().code == old(self).top().code
                        &&& final(self).top().ip == old(self).top().ip
                        &&& final(self).frames@.drop_last() == old(self).frames@.drop_last()
                    },
                    Err(e) => r == Err::<(), RuntimeError>(e),
                },
                _ => true,
            },
    {
        if !(self.frames.len() > 0 && self.ip < self.frames.len() && self.ip + 1 == self.frames.len()) {
            return Err(RuntimeError::BadInstruction);
        }
        let (count, io) = match self.pending {
            Pending::Call(count, io) => (count, io),
            _ => {
                return Err(RuntimeError::BadInstruction);
            },
        };
        let mut frame = self.take_frame();
        let done = finish(&mut self.rc, &mut frame, count, output, io);
        self.frames.push(frame);
        done?;
        self.pending = Pending::Nothing;
        Ok(())
    }

    /// Puts the built-in functions on the heap, in the order of their symbols.
    pub fn declare_native(&mut self)
        ensures
            final(self).rc.heap@ == old(self).rc.heap@ + native_objects(),
            final(self).frames == old(self).frames,
            final(self).ip == old(self).ip,
            final(self).pending == old(self).pending,
    {
        let natives = crate::compiler::get_natives_fn();
        let mut j: usize = 0;
        while j < natives.len()
            invariant
                j <= natives@.len(),
                natives@ == crate::compiler::native_fns(),
                self.rc.heap@ == old(self).rc.heap@ + native_objects().take(j as int),
                self.frames == old(self).frames,
                self.ip == old(self).ip,
                self.pending == old(self).pending,
            decreases natives@.len() - j,
        {
            let n = crate::objects::NativeFn {
                function: natives[j].function,
                arg_count: natives[j].arg_count,
                rc_counter: natives[j].rc_counter,
            };
            self.rc.push(HeapObject::Native(n));
            proof {
                assert(native_objects().take(j as int + 1) =~= native_objects().take(j as int).push(HeapObject::Native(n)));
            }
            j = j + 1;
        }
        assert(native_objects().take(19) =~= native_objects());
    }

    /// Puts the program's declarations on the heap, after the built-in functions and in
    /// their order: each function; each struct, the `String` struct followed by its twelve
    /// method functions and the `List` struct by six empty slots (so that heap positions
    /// match symbol positions). Gives the frame that runs the last function named `main`
    /// (in any case); fails where there is none. Other instructions are passed over.
    #[verifier::loop_isolation(false)]
    pub fn declare_all(&mut self, chunk: Chunk) -> (r: Result<Frame, RuntimeError>)
        ensures
            final(self).rc.heap@.len() >= old(self).rc.heap@.len() + 19,
            final(self).frames == old(self).frames,
            r matches Ok(f) ==> f.stack@.len() == 0 && f.ip == 0,
            r matches Ok(f) ==> (f.code matches CodeRef::Function(m) && main_at(final(self).rc.heap@, m)),
            r is Err <==> forall|i: int| 0 <= i < chunk.code@.len() ==> !declares_main(#[trigger] chunk.code@[i]),
            r matches Err(e) ==> e == RuntimeError::NoMain,
            final(self).rc.heap@ == old(self).rc.heap@ + native_objects() + heap_layout(chunk.code@),
    {
        self.declare_native();
        let ghost base_heap = self.rc.heap@;
        let ghost base = self.rc.heap@.len();
        let ghost cc = chunk.code@;
        let n = chunk.code.len();
        let mut code = chunk.code;
        let mut back: Vec<Instruction> = Vec::new();
        while code.len() > 0
            invariant
                code@.len() <= cc.len(),
                code@ == cc.subrange(0, code@.len() as int),
                back@ == cc.subrange(code@.len() as int, cc.len() as int).reverse(),
            decreases code@.len(),
        {
            let ghost k = code@.len();
            let i = code.pop().unwrap();
            back.push(i);
            proof {
                assert(code@ =~= cc.subrange(0, code@.len() as int));
                assert(back@ =~= cc.subrange(code@.len() as int, cc.len() as int).reverse());
            }
        }
        let mut main_index: Option<usize> = None;
        while back.len() > 0
            invariant
                self.rc.heap@.len() >= base,
                base >= old(self).rc.heap@.len() + 19,
                self.frames == old(self).frames,
                back@.len() <= cc.len(),
                back@ == cc.subrange(cc.len() - back@.len(), cc.len() as int).reverse(),
                main_index matches Some(m) ==> main_at(self.rc.heap@, m),
                main_index is None ==> forall|i: int| 0 <= i < cc.len() - back@.len() ==> !declares_main(#[trigger] cc[i]),
                main_index is Some ==> exists|i: int| 0 <= i < cc.len() && declares_main(#[trigger] cc[i]),
                base_heap == old(self).rc.heap@ + native_objects(),
                self.rc.heap@ == base_heap + heap_layout(cc.subrange(0, cc.len() - back@.len())),
            decreases back@.len(),
        {
            let ghost t = cc.len() - back@.len();
            proof {
                assert(back@.last() == cc[t]);
            }
            let instruction = back.pop().unwrap();
            proof {
                assert(back@ =~= cc.subrange(t + 1, cc.len() as int).reverse());
                assert(instruction == cc[t]);
            }
            let ghost h0 = self.rc.heap@;
            match instruction.op {
                OpCode::FUNCTION_DEC(f) => {
                    if is_main(f.name.as_slice()) {
                        main_index = Some(self.rc.heap.len());
                        assert(declares_main(cc[t]));
                    }
                    self.rc.push(HeapObject::Function(f));
                },
                OpCode::STRUCT_DEC(st) => {
                    let ghost stv = st;
                    let string_name: [char; 6] = ['S', 't', 'r', 'i', 'n', 'g'];
                    let list_name: [char; 4] = ['L', 'i', 's', 't'];
                    assert(string_name@ =~= seq!['S', 't', 'r', 'i', 'n', 'g']);
                    assert(list_name@ =~= seq!['L', 'i', 's', 't']);
                    let is_string = crate::tokens::chars_equal(st.name.as_slice(), &string_name);
                    let is_list = crate::tokens::chars_equal(st.name.as_slice(), &list_name);
                    self.rc.push(HeapObject::Struct(st));
                    let ghost h1 = self.rc.heap@;
                    if is_string {
                        let methods = crate::strings::StringMethods::get_methods_rc();
                        let mut j: usize = 0;
                        while j < methods.len()
                            invariant
                                j <= methods@.len(),
                                methods@ == crate::strings::string_method_fns(),
                                self.rc.heap@ == h1 + string_method_objects().take(j as int),
                                self.rc.heap@.len() >= base,
                                self.frames == old(self).frames,
                                main_index matches Some(m) ==> main_at(self.rc.heap@, m),
                            decreases methods@.len() - j,
                        {
                            let m = crate::objects::NativeFn {
                                function: methods[j].function,
                                arg_count: methods[j].arg_count,
                                rc_counter: methods[j].rc_counter,
                            };
                            self.rc.push(HeapObject::Native(m));
                            proof {
                                assert(string_method_objects().take(j as int + 1) =~= string_method_objects().take(j as int).push(
                                    HeapObject::Native(m),
                                ));
                            }
                            j = j + 1;
                        }
                        assert(string_method_objects().take(12) =~= string_method_objects());
                    }
                    let ghost h2 = self.rc.heap@;
                    if is_list {
                        let mut k: usize = 0;
                        while k < 6
                            invariant
                                k <= 6,
                                self.rc.heap@ == h2 + list_method_slots().take(k as int),
                                self.rc.heap@.len() >= base,
                                self.frames == old(self).frames,
                                main_index matches Some(m) ==> main_at(self.rc.heap@, m),
                            decreases 6 - k,
                        {
                            self.rc.push(HeapObject::Empty(EmptyObject {}));
                            proof {
                                assert(list_method_slots().take(k as int + 1) =~= list_method_slots().take(k as int).push(
                                    HeapObject::Empty(EmptyObject {}),
                                ));
                            }
                            k = k + 1;
                        }
                        assert(list_method_slots().take(6) =~= list_method_slots());
                    }
                    proof {
                        assert(self.rc.heap@ =~= h0 + decl_objects(instruction));
                    }
                },
                _ => {},
            }
            proof {
                let pre = cc.subrange(0, t);
                let post = cc.subrange(0, t + 1);
                assert(post.drop_last() =~= pre);
                assert(post.last() == instruction);
                assert(self.rc.heap@ =~= base_heap + heap_layout(post));
            }
        }
        assert(cc.subrange(0, cc.len() as int) =~= cc);
        match main_index {
            Some(m) => Ok(Frame { code: CodeRef::Function(m), stack: Vec::new(), ip: 0 }),
            None => Err(RuntimeError::NoMain),
        }
    }
}


/// A read gives back what a write wrote: after `VAR_SET(i)` stores the top of the stack in
/// slot `i`, `VAR_CALL(i)` pushes that same value.
pub proof fn lemma_var_set_then_call(s: FrameState, i: usize)
    requires
        s.stack.len() > 0,
        i < s.stack.len(),
    ensures
        pure_step(OpCode::VAR_SET(i), None, s) matches Some(Ok(s1)) && pure_step(OpCode::VAR_CALL(i), None, s1) matches Some(
            Ok(s2),
        ) && s2.stack.last() == s.stack.last() && s2.stack.len() == s.stack.len() + 1,
{
}

/// Popping a list undoes pushing on it: pushing `v` on the list at `h` gives a heap whose
/// slots are `heap2`'s, and popping that list in `heap2` gives `v` back and the slots of
/// `heap` again.
pub proof fn lemma_list_push_then_pop(heap: Seq<HeapObject>, heap2: Seq<HeapObject>, st: Seq<ValueModel>, v: ValueModel, h: usize)
    requires
        is_instance_at(heap, h),
        heap_slots(heap2) == set_values(heap, h, heap[h as int].values().push(v)),
        kinds(heap2) == kinds(heap),
    ensures
        heap_step(OpCode::LIST_PUSH, heap, st.push(v).push(ValueModel::InstanceRef(h))) == Some(
            Ok::<(Seq<SlotModel>, Seq<ValueModel>), RuntimeError>((heap_slots(heap2), st)),
        ),
        heap_step(OpCode::LIST_POP, heap2, st.push(ValueModel::InstanceRef(h))) == Some(
            Ok::<(Seq<SlotModel>, Seq<ValueModel>), RuntimeError>((heap_slots(heap), st.push(v))),
        ),
{
    let vals = heap[h as int].values();
    assert(heap2.len() == heap.len());
    assert(kinds(heap)[h as int] == (heap[h as int] is Instance));
    assert(kinds(heap2)[h as int] == (heap2[h as int] is Instance));
    assert(heap2[h as int] is Instance);
    assert(heap_slots(heap2)[h as int].values == heap2[h as int].values());
    assert(heap2[h as int].values() == vals.push(v));
    assert(vals.push(v).last() == v);
    assert(heap_slots(heap2)[h as int] == with_values(heap_slots(heap)[h as int], vals.push(v)));
    assert(st.push(v).push(ValueModel::InstanceRef(h)).drop_last() =~= st.push(v));
    assert(st.push(v).drop_last() =~= st);
    assert(st.push(ValueModel::InstanceRef(h)).drop_last() =~= st);
    assert(vals.push(v).drop_last() =~= vals);
    assert(set_values(heap2, h, vals) =~= heap_slots(heap));
}

/// Reading a field gives back what was just written there: with no reference written or
/// written over, writing `v` at `field` of the instance that local `pos` refers to gives a
/// heap whose slots are `heap2`'s, and reading that field in `heap2` pushes `v`.
pub proof fn lemma_set_then_get_field(
    heap: Seq<HeapObject>,
    heap2: Seq<HeapObject>,
    st: Seq<ValueModel>,
    pos: usize,
    field: usize,
    v: ValueModel,
    h: usize,
)
    requires
        ref_at(st, pos as int) == Ok::<usize, RuntimeError>(h),
        is_instance_at(heap, h),
        field < heap[h as int].values().len(),
        ref_of(v) is None,
        ref_of(heap[h as int].values()[field as int]) is None,
        heap_slots(heap2) == set_values(heap, h, heap[h as int].values().update(field as int, v)),
        kinds(heap2) == kinds(heap),
    ensures
        heap_step(OpCode::SET_INSTANCE_FIELD(pos, field), heap, st.push(v)) == Some(
            Ok::<(Seq<SlotModel>, Seq<ValueModel>), RuntimeError>((heap_slots(heap2), st.push(v))),
        ),
        heap_step(OpCode::GET_INSTANCE_FIELD(pos, field), heap2, st.push(v)) == Some(
            Ok::<(Seq<SlotModel>, Seq<ValueModel>), RuntimeError>((heap_slots(heap2), st.push(v).push(v))),
        ),
{
    let vals = heap[h as int].values();
    assert(st.push(v).drop_last() =~= st);
    assert(st.push(v)[pos as int] == st[pos as int]);
    assert(heap2.len() == heap.len());
    assert(heap_slots(heap2)[h as int].values == heap2[h as int].values());
    assert(heap2[h as int].values() == vals.update(field as int, v));
}

/// Subtracting undoes adding: where `b + a` fits, `(b + a) - a` is `b`.
pub proof fn lemma_add_then_sub(b: i64, a: i64)
    requires
        fits_i64(b + a),
    ensures
        int_result(OpCode::ADD_INT, b, a) matches Ok(ValueModel::Int(c)) && int_result(OpCode::SUB_INT, c, a) == Ok::<
            ValueModel,
            RuntimeError,
        >(ValueModel::Int(b)),
{
}

/// The remainder `MOD_INT` computes is never negative and below the divisor's size, and
/// it differs from the dividend by a multiple of the divisor (`q` times it).
pub proof fn lemma_euclid_rem_range(b: int, a: int) -> (q: int)
    requires
        a != 0,
    ensures
        0 <= euclid_rem(b, a) < (if a < 0 { -a } else { a }),
        b - euclid_rem(b, a) == q * a,
{
    let ua = if a < 0 { -a } else { a };
    let ub = if b < 0 { -b } else { b };
    let m = ub % ua;
    let k = ub / ua;
    assert(0 <= m < ua && ub == k * ua + m) by (nonlinear_arith)
        requires
            ua > 0,
            ub >= 0,
            m == ub % ua,
            k == ub / ua,
    ;
    let r = euclid_rem(b, a);
    let sign = if a < 0 { -1int } else { 1int };
    assert(ua == sign * a) by (nonlinear_arith)
        requires
            ua == (if a < 0 { -a } else { a }),
            sign == (if a < 0 { -1int } else { 1int }),
    ;
    if b >= 0 {
        assert(b - r == (k * sign) * a) by (nonlinear_arith)
            requires
                b - r == k * ua,
                ua == sign * a,
        ;
        k * sign
    } else if m == 0 {
        assert(b - r == (-k * sign) * a) by (nonlinear_arith)
            requires
                b - r == -(k * ua),
                ua == sign * a,
        ;
        -k * sign
    } else {
        assert(b - r == (-(k + 1) * sign) * a) by (nonlinear_arith)
            requires
                b - r == -(k * ua) - ua,
                ua == sign * a,
        ;
        -(k + 1) * sign
    }
}

} // verus!
