//! The interpreter: what one word does, one step of the machine, and one
//! whole tick.

use vstd::prelude::*;
use crate::config::{
    EQUALITY_TOLERANCE, MAX_ANGULAR_VELOCITY, MAX_MOVEMENT_SPEED, NO_SIGNAL, NUMERIC_SCALE,
    SPLIT_ENERGY_COST, STACK_CAPACITY,
};
use crate::executor::{
    budget_for, jump_table_of, label_table_of, next_pointer, push_capped, GenomeExecutor,
    JumpEntry, StackValue,
};
use crate::genome::Genome;
use crate::numeric::{
    add_numeric, divide_numeric, magnitude, multiply_numeric, numeric_close, numeric_difference,
    numeric_from_units, numeric_product, numeric_quotient, numeric_sum, numerics_close,
    scale_and_clamp, scaled_delta, subtract_numeric,
};
use crate::word::Word;

verus! {

/// The sensor snapshot of one agent for one tick: the distance to the nearest
/// plant in each of four sectors, where one is detected.
#[derive(Debug, Clone, Copy, PartialEq, Eq, Structural)]
pub struct Sensors {
    pub smell_front: Option<i64>,
    pub smell_back: Option<i64>,
    pub smell_left: Option<i64>,
    pub smell_right: Option<i64>,
}

impl Default for Sensors {
    fn default() -> (r: Sensors)
        ensures
            r == (Sensors {
                smell_front: None,
                smell_back: None,
                smell_left: None,
                smell_right: None,
            }),
    {
        Sensors { smell_front: None, smell_back: None, smell_left: None, smell_right: None }
    }
}

/// One of the four sectors around an agent.
#[derive(Debug, Clone, Copy, PartialEq, Eq, Structural)]
pub enum Sector {
    Front,
    Back,
    Left,
    Right,
}

/// The sector of a point, from the dot products of its offset with the
/// agent's forward and right axes: front or back where the forward part is
/// the larger in magnitude, by its sign; right or left otherwise, by the sign
/// of the right part.
pub open spec fn sector_for(forward_dot: i64, right_dot: i64) -> Sector {
    if magnitude(forward_dot as int) > magnitude(right_dot as int) {
        if forward_dot > 0 {
            Sector::Front
        } else {
            Sector::Back
        }
    } else if right_dot > 0 {
        Sector::Right
    } else {
        Sector::Left
    }
}

/// A reading after one more detection: the smaller distance.
pub open spec fn nearer(current: Option<i64>, distance: i64) -> Option<i64> {
    match current {
        None => Some(distance),
        Some(d) => if d <= distance {
            Some(d)
        } else {
            Some(distance)
        },
    }
}

/// Returns the sector of a point from its two dot products.
pub fn sector_of(forward_dot: i64, right_dot: i64) -> (s: Sector)
    ensures
        s == sector_for(forward_dot, right_dot),
{
    let f: i128 = if forward_dot < 0 {
        -(forward_dot as i128)
    } else {
        forward_dot as i128
    };
    let r: i128 = if right_dot < 0 {
        -(right_dot as i128)
    } else {
        right_dot as i128
    };
    if f > r {
        if forward_dot > 0 {
            Sector::Front
        } else {
            Sector::Back
        }
    } else if right_dot > 0 {
        Sector::Right
    } else {
        Sector::Left
    }
}

fn nearer_of(current: Option<i64>, distance: i64) -> (r: Option<i64>)
    ensures
        r == nearer(current, distance),
{
    match current {
        None => Some(distance),
        Some(d) => if d <= distance {
            Some(d)
        } else {
            Some(distance)
        },
    }
}

impl Sensors {
    /// Records a plant detected in a sector at a distance: the sector keeps
    /// the smallest distance recorded, the other sectors stay.
    pub fn record(&mut self, sector: Sector, distance: i64)
        ensures
            *final(self) == (match sector {
                Sector::Front => Sensors {
                    smell_front: nearer(old(self).smell_front, distance),
                    ..*old(self)
                },
                Sector::Back => Sensors {
                    smell_back: nearer(old(self).smell_back, distance),
                    ..*old(self)
                },
                Sector::Left => Sensors {
                    smell_left: nearer(old(self).smell_left, distance),
                    ..*old(self)
                },
                Sector::Right => Sensors {
                    smell_right: nearer(old(self).smell_right, distance),
                    ..*old(self)
                },
            }),
    {
        match sector {
            Sector::Front => {
                self.smell_front = nearer_of(self.smell_front, distance);
            },
            Sector::Back => {
                self.smell_back = nearer_of(self.smell_back, distance);
            },
            Sector::Left => {
                self.smell_left = nearer_of(self.smell_left, distance);
            },
            Sector::Right => {
                self.smell_right = nearer_of(self.smell_right, distance);
            },
        }
    }
}

/// How execution goes on after a word.
#[derive(Debug, Clone, Copy, PartialEq, Eq, Structural)]
pub enum ExecutionResult {
    /// On to the next word.
    Continue,
    /// On to the given position.
    Jump(usize),
    /// Operands were missing or of the wrong type: nothing was done.
    Skip,
}

/// What a word asks the host to do to the agent or its surroundings.
#[derive(Debug, Clone, Copy, PartialEq, Eq, Structural)]
pub enum Effect {
    /// Move along the forward axis by the given distance.
    MoveForward(i64),
    /// Move against the forward axis by the given distance.
    MoveBackward(i64),
    /// Turn left by the given degrees.
    TurnLeft(i64),
    /// Turn right by the given degrees.
    TurnRight(i64),
    /// Eat from the nearest plant in reach.
    Eat,
}

/// What executing one word yields: the new stack, how to go on, and the
/// effect for the host.
pub struct WordOutcome {
    pub stack: Seq<StackValue>,
    pub result: ExecutionResult,
    pub effect: Option<Effect>,
}

/// Whether the stack holds the operands that the word's stack effect names:
/// enough values, each of the type the word takes.
pub open spec fn operands_present(word: Word, stack: Seq<StackValue>) -> bool {
    let n = stack.len() as int;
    match word {
        Word::Dup | Word::Drop => n >= 1,
        Word::Swap | Word::Over => n >= 2,
        Word::Rot => n >= 3,
        Word::Add | Word::Sub | Word::Mul | Word::Div | Word::Lt | Word::Gt | Word::Eq => {
            n >= 2 && stack[n - 1] is Float && stack[n - 2] is Float
        },
        Word::And | Word::Or => n >= 2 && stack[n - 1] is Bool && stack[n - 2] is Bool,
        Word::Not | Word::If => n >= 1 && stack[n - 1] is Bool,
        Word::MoveForward | Word::MoveBackward | Word::TurnLeft | Word::TurnRight => {
            n >= 1 && stack[n - 1] is Float
        },
        _ => true,
    }
}

/// The first entry from index `from` on whose `If` stands at `position`.
pub open spec fn entry_of_if(table: Seq<JumpEntry>, position: usize, from: int) -> Option<
    JumpEntry,
>
    decreases table.len() - from,
{
    if from < 0 || from >= table.len() {
        None
    } else if table[from].0 == position {
        Some(table[from])
    } else {
        entry_of_if(table, position, from + 1)
    }
}

/// The first entry from index `from` on whose `Else` stands at `position`.
pub open spec fn entry_of_else(table: Seq<JumpEntry>, position: usize, from: int) -> Option<
    JumpEntry,
>
    decreases table.len() - from,
{
    if from < 0 || from >= table.len() {
        None
    } else if table[from].1 == Some(position) {
        Some(table[from])
    } else {
        entry_of_else(table, position, from + 1)
    }
}

/// What a sensor pushes: its reading, or the no-signal value.
pub open spec fn reading(sensor: Option<i64>) -> StackValue {
    match sensor {
        Some(d) => StackValue::Float(d),
        None => StackValue::Float(NO_SIGNAL),
    }
}

/// The stack with its two top values replaced by `value`.
pub open spec fn replace_two(stack: Seq<StackValue>, value: StackValue) -> Seq<StackValue> {
    push_capped(stack.drop_last().drop_last(), value)
}

/// The numeric that lies `depth` values below the top of the stack.
pub open spec fn numeric_at(stack: Seq<StackValue>, depth: int) -> int {
    stack[stack.len() - 1 - depth]->Float_0 as int
}

/// The boolean that lies `depth` values below the top of the stack.
pub open spec fn boolean_at(stack: Seq<StackValue>, depth: int) -> bool {
    stack[stack.len() - 1 - depth]->Bool_0
}

/// Going on to the next word with the given stack and no effect.
pub open spec fn goes_on(stack: Seq<StackValue>) -> WordOutcome {
    WordOutcome { stack, result: ExecutionResult::Continue, effect: None }
}

/// Going on to the next word with the top of the stack consumed by an effect.
pub open spec fn acts(stack: Seq<StackValue>, effect: Effect) -> WordOutcome {
    WordOutcome { stack: stack.drop_last(), result: ExecutionResult::Continue, effect: Some(effect) }
}

/// Where a false `If` at `pointer` goes: past its `Else` where it has one,
/// else past its `Then`; straight on where the table does not know it.
pub open spec fn false_branch(jump_table: Seq<JumpEntry>, pointer: usize) -> ExecutionResult {
    match entry_of_if(jump_table, pointer, 0) {
        Some(e) => match e.1 {
            Some(else_position) => ExecutionResult::Jump((else_position + 1) as usize),
            None => ExecutionResult::Jump((e.2 + 1) as usize),
        },
        None => ExecutionResult::Continue,
    }
}

/// Where an `Else` at `pointer` goes, reached at the end of the true branch:
/// past the `Then` of its conditional; straight on where the table does not
/// know it.
pub open spec fn after_true_branch(jump_table: Seq<JumpEntry>, pointer: usize) -> ExecutionResult {
    match entry_of_else(jump_table, pointer, 0) {
        Some(e) => ExecutionResult::Jump((e.2 + 1) as usize),
        None => ExecutionResult::Continue,
    }
}

/// Where a jump word goes: to its label where the table has it, else
/// straight on.
pub open spec fn label_jump(label_table: Seq<Option<usize>>, word: Word) -> ExecutionResult {
    match label_table[jump_slot(word)] {
        Some(target) => ExecutionResult::Jump(target),
        None => ExecutionResult::Continue,
    }
}

/// What executing `word` yields, with the pointer standing on it. Binary
/// words take `b` from the top and `a` from below it.
pub open spec fn word_outcome(
    word: Word,
    stack: Seq<StackValue>,
    pointer: usize,
    jump_table: Seq<JumpEntry>,
    label_table: Seq<Option<usize>>,
    energy: u32,
    sensors: Sensors,
) -> WordOutcome {
    let n = stack.len() as int;
    let a = numeric_at(stack, 1);
    let b = numeric_at(stack, 0);
    if !operands_present(word, stack) {
        WordOutcome { stack, result: ExecutionResult::Skip, effect: None }
    } else {
        match word {
            Word::Dup => goes_on(push_capped(stack, stack[n - 1])),
            Word::Drop => goes_on(stack.drop_last()),
            Word::Swap => goes_on(
                push_capped(
                    push_capped(stack.drop_last().drop_last(), stack[n - 1]),
                    stack[n - 2],
                ),
            ),
            Word::Over => goes_on(push_capped(stack, stack[n - 2])),
            Word::Rot => goes_on(
                push_capped(
                    push_capped(
                        push_capped(stack.drop_last().drop_last().drop_last(), stack[n - 2]),
                        stack[n - 1],
                    ),
                    stack[n - 3],
                ),
            ),
            Word::PushFloat(v) => goes_on(push_capped(stack, StackValue::Float(v))),
            Word::PushBool(v) => goes_on(push_capped(stack, StackValue::Bool(v))),
            Word::SmellFront => goes_on(push_capped(stack, reading(sensors.smell_front))),
            Word::SmellBack => goes_on(push_capped(stack, reading(sensors.smell_back))),
            Word::SmellLeft => goes_on(push_capped(stack, reading(sensors.smell_left))),
            Word::SmellRight => goes_on(push_capped(stack, reading(sensors.smell_right))),
            Word::Energy => goes_on(
                push_capped(stack, StackValue::Float((energy * NUMERIC_SCALE) as i64)),
            ),
            Word::Add => goes_on(replace_two(stack, StackValue::Float(numeric_sum(a, b) as i64))),
            Word::Sub => goes_on(
                replace_two(stack, StackValue::Float(numeric_difference(a, b) as i64)),
            ),
            Word::Mul => goes_on(
                replace_two(stack, StackValue::Float(numeric_product(a, b) as i64)),
            ),
            Word::Div => goes_on(
                replace_two(stack, StackValue::Float(numeric_quotient(a, b) as i64)),
            ),
            Word::Lt => goes_on(replace_two(stack, StackValue::Bool(a < b))),
            Word::Gt => goes_on(replace_two(stack, StackValue::Bool(a > b))),
            Word::Eq => goes_on(replace_two(stack, StackValue::Bool(numeric_close(a, b)))),
            Word::And => goes_on(
                replace_two(stack, StackValue::Bool(boolean_at(stack, 1) && boolean_at(stack, 0))),
            ),
            Word::Or => goes_on(
                replace_two(stack, StackValue::Bool(boolean_at(stack, 1) || boolean_at(stack, 0))),
            ),
            Word::Not => goes_on(
                push_capped(stack.drop_last(), StackValue::Bool(!boolean_at(stack, 0))),
            ),
            Word::If => WordOutcome {
                stack: stack.drop_last(),
                result: if boolean_at(stack, 0) {
                    ExecutionResult::Continue
                } else {
                    false_branch(jump_table, pointer)
                },
                effect: None,
            },
            Word::Else => WordOutcome {
                stack,
                result: after_true_branch(jump_table, pointer),
                effect: None,
            },
            Word::Jump0 | Word::Jump1 | Word::Jump2 | Word::Jump3 => WordOutcome {
                stack,
                result: label_jump(label_table, word),
                effect: None,
            },
            Word::MoveForward => acts(
                stack,
                Effect::MoveForward(scaled_delta(b, MAX_MOVEMENT_SPEED as int) as i64),
            ),
            Word::MoveBackward => acts(
                stack,
                Effect::MoveBackward(scaled_delta(b, MAX_MOVEMENT_SPEED as int) as i64),
            ),
            Word::TurnLeft => acts(
                stack,
                Effect::TurnLeft(scaled_delta(b, MAX_ANGULAR_VELOCITY as int) as i64),
            ),
            Word::TurnRight => acts(
                stack,
                Effect::TurnRight(scaled_delta(b, MAX_ANGULAR_VELOCITY as int) as i64),
            ),
            Word::Eat => WordOutcome {
                stack,
                result: ExecutionResult::Continue,
                effect: Some(Effect::Eat),
            },
            Word::Then | Word::Label0 | Word::Label1 | Word::Label2 | Word::Label3 | Word::Split
            | Word::Nop => goes_on(stack),
        }
    }
}

/// The label slot that a jump word reads.
pub open spec fn jump_slot(word: Word) -> int {
    match word {
        Word::Jump0 => 0,
        Word::Jump1 => 1,
        Word::Jump2 => 2,
        _ => 3,
    }
}

/// The machine between two instructions.
pub struct Machine {
    /// The instruction pointer.
    pub pointer: usize,
    /// The operand stack, top last.
    pub stack: Seq<StackValue>,
    /// Instructions executed so far in the tick.
    pub executed: int,
}

/// A machine after one instruction, with what the instruction asked for.
pub struct StepState {
    pub machine: Machine,
    pub effect: Option<Effect>,
    pub split: bool,
}

/// A machine at the end of a tick, with the effects in the order in which
/// they arose and whether the agent asked to reproduce.
pub struct TickState {
    pub machine: Machine,
    pub effects: Seq<Effect>,
    pub split: bool,
}

/// The position from which the next word is fetched: the pointer, or the
/// start where the pointer stands past the end.
pub open spec fn fetch_position(pointer: usize, genome_len: int) -> usize {
    if pointer >= genome_len {
        0
    } else {
        pointer
    }
}

/// One instruction. `Split` asks for reproduction where the energy covers
/// its cost and does nothing otherwise; a jump lands on its target modulo the
/// genome's length; every other outcome moves the pointer one word on. Each
/// instruction counts once.
pub open spec fn step_of(
    words: Seq<Word>,
    jump_table: Seq<JumpEntry>,
    label_table: Seq<Option<usize>>,
    energy: u32,
    sensors: Sensors,
    m: Machine,
) -> StepState {
    let at = fetch_position(m.pointer, words.len() as int);
    let word = words[at as int];
    if word == Word::Split {
        StepState {
            machine: Machine {
                pointer: next_pointer(at, words.len() as usize),
                stack: m.stack,
                executed: m.executed + 1,
            },
            effect: None,
            split: energy >= SPLIT_ENERGY_COST,
        }
    } else {
        let out = word_outcome(word, m.stack, at, jump_table, label_table, energy, sensors);
        StepState {
            machine: Machine {
                pointer: match out.result {
                    ExecutionResult::Jump(target) => (target as int % words.len() as int) as usize,
                    _ => next_pointer(at, words.len() as usize),
                },
                stack: out.stack,
                executed: m.executed + 1,
            },
            effect: out.effect,
            split: false,
        }
    }
}

/// The effects so far with one more, where the step had one.
pub open spec fn with_effect(effects: Seq<Effect>, effect: Option<Effect>) -> Seq<Effect> {
    match effect {
        Some(e) => effects.push(e),
        None => effects,
    }
}

/// Runs the machine until the budget is spent or a step asks for
/// reproduction.
pub open spec fn run_from(
    words: Seq<Word>,
    jump_table: Seq<JumpEntry>,
    label_table: Seq<Option<usize>>,
    energy: u32,
    sensors: Sensors,
    m: Machine,
    effects: Seq<Effect>,
    budget: int,
) -> TickState
    decreases budget - m.executed,
{
    if m.executed >= budget {
        TickState { machine: m, effects, split: false }
    } else {
        let s = step_of(words, jump_table, label_table, energy, sensors, m);
        if s.split {
            TickState { machine: s.machine, effects: with_effect(effects, s.effect), split: true }
        } else {
            run_from(
                words,
                jump_table,
                label_table,
                energy,
                sensors,
                s.machine,
                with_effect(effects, s.effect),
                budget,
            )
        }
    }
}

/// One whole tick of an agent whose pointer and stack are as given: fresh
/// counters, tables built from the genome, budget from the energy.
pub open spec fn tick_of(
    words: Seq<Word>,
    energy: u32,
    sensors: Sensors,
    pointer: usize,
    stack: Seq<StackValue>,
) -> TickState {
    run_from(
        words,
        jump_table_of(words),
        label_table_of(words),
        energy,
        sensors,
        Machine { pointer, stack, executed: 0 },
        Seq::empty(),
        budget_for(energy) as int,
    )
}

/// What becomes of the agent after a tick.
#[derive(Debug, Clone, Copy, PartialEq, Eq, Structural)]
pub enum TickOutcome {
    /// Its energy is zero: the host removes it.
    Removed,
    /// It asked to reproduce: the host splits it.
    Reproduce,
    /// It lives on with its executor as the tick left it.
    Persist,
}

/// What one step hands to the host.
#[derive(Debug, Clone, Copy, PartialEq, Eq, Structural)]
pub struct StepOutcome {
    pub effect: Option<Effect>,
    pub split: bool,
}

/// What one tick hands to the host.
#[derive(Debug)]
pub struct TickResult {
    /// The effects to apply, in order.
    pub effects: Vec<Effect>,
    /// What becomes of the agent.
    pub outcome: TickOutcome,
}

/// The outcome of a tick for an agent of the given energy.
pub open spec fn outcome_of(energy: u32, split: bool) -> TickOutcome {
    if energy == 0 {
        TickOutcome::Removed
    } else if split {
        TickOutcome::Reproduce
    } else {
        TickOutcome::Persist
    }
}

fn is_numeric(v: &StackValue) -> (r: bool)
    ensures
        r == (*v is Float),
{
    match v {
        StackValue::Float(_) => true,
        StackValue::Bool(_) => false,
    }
}

/// Tells whether the stack holds the operands of the word.
pub fn has_operands(word: Word, stack: &Vec<StackValue>) -> (r: bool)
    ensures
        r == operands_present(word, stack@),
{
    let n: usize = stack.len();
    match word {
        Word::Dup | Word::Drop => n >= 1,
        Word::Swap | Word::Over => n >= 2,
        Word::Rot => n >= 3,
        Word::Add | Word::Sub | Word::Mul | Word::Div | Word::Lt | Word::Gt | Word::Eq => {
            n >= 2 && is_numeric(&stack[n - 1]) && is_numeric(&stack[n - 2])
        },
        Word::And | Word::Or => n >= 2 && !is_numeric(&stack[n - 1]) && !is_numeric(
            &stack[n - 2],
        ),
        Word::Not | Word::If => n >= 1 && !is_numeric(&stack[n - 1]),
        Word::MoveForward | Word::MoveBackward | Word::TurnLeft | Word::TurnRight => {
            n >= 1 && is_numeric(&stack[n - 1])
        },
        _ => true,
    }
}

fn find_if_entry(table: &Vec<JumpEntry>, position: usize) -> (r: Option<JumpEntry>)
    ensures
        r == entry_of_if(table@, position, 0),
{
    let mut i: usize = 0;
    while i < table.len()
        invariant
            i <= table.len(),
            entry_of_if(table@, position, 0) == entry_of_if(table@, position, i as int),
        decreases table.len() - i,
    {
        let e = table[i];
        if e.0 == position {
            return Some(e);
        }
        i += 1;
    }
    None
}

fn find_else_entry(table: &Vec<JumpEntry>, position: usize) -> (r: Option<JumpEntry>)
    ensures
        r == entry_of_else(table@, position, 0),
{
    let mut i: usize = 0;
    while i < table.len()
        invariant
            i <= table.len(),
            entry_of_else(table@, position, 0) == entry_of_else(table@, position, i as int),
        decreases table.len() - i,
    {
        let e = table[i];
        let here: bool = match e.1 {
            Some(p) => p == position,
            None => false,
        };
        if here {
            return Some(e);
        }
        i += 1;
    }
    None
}

proof fn lemma_entry_of_if_in_table(table: Seq<JumpEntry>, position: usize, from: int)
    requires
        0 <= from,
    ensures
        match entry_of_if(table, position, from) {
            Some(e) => exists|k: int| 0 <= k < table.len() && table[k] == e,
            None => true,
        },
    decreases table.len() - from,
{
    if from < table.len() && table[from].0 != position {
        lemma_entry_of_if_in_table(table, position, from + 1);
    }
}

proof fn lemma_entry_of_else_in_table(table: Seq<JumpEntry>, position: usize, from: int)
    requires
        0 <= from,
    ensures
        match entry_of_else(table, position, from) {
            Some(e) => exists|k: int| 0 <= k < table.len() && table[k] == e,
            None => true,
        },
    decreases table.len() - from,
{
    if from < table.len() && table[from].1 != Some(position) {
        lemma_entry_of_else_in_table(table, position, from + 1);
    }
}

fn sensor_value(sensor: Option<i64>) -> (r: StackValue)
    ensures
        r == reading(sensor),
{
    match sensor {
        Some(d) => StackValue::Float(d),
        None => StackValue::Float(NO_SIGNAL),
    }
}

fn jump_to(label: Option<usize>) -> (r: ExecutionResult)
    ensures
        r == (match label {
            Some(target) => ExecutionResult::Jump(target),
            None => ExecutionResult::Continue,
        }),
{
    match label {
        Some(target) => ExecutionResult::Jump(target),
        None => ExecutionResult::Continue,
    }
}

/// Executes one word on the executor's stack. The pointer stays where it is:
/// the result says how to go on, and the effect is for the host to apply.
/// Missing or wrong-typed operands leave the stack as it was.
pub fn execute_word(
    word: Word,
    executor: &mut GenomeExecutor,
    energy: u32,
    sensors: &Sensors,
) -> (r: (ExecutionResult, Option<Effect>))
    requires
        old(executor).targets_fit(),
    ensures
        old(executor).wf() ==> final(executor).wf(),
        ({
            let out = word_outcome(
                word,
                old(executor).stack@,
                old(executor).instruction_pointer,
                old(executor).jump_table@,
                old(executor).label_table@,
                energy,
                *sensors,
            );
            &&& final(executor).stack@ == out.stack
            &&& r.0 == out.result
            &&& r.1 == out.effect
        }),
        final(executor).instruction_pointer == old(executor).instruction_pointer,
        final(executor).instructions_executed_this_frame
            == old(executor).instructions_executed_this_frame,
        final(executor).max_instructions_per_frame == old(executor).max_instructions_per_frame,
        final(executor).if_stack == old(executor).if_stack,
        final(executor).jump_table == old(executor).jump_table,
        final(executor).label_table == old(executor).label_table,
{
    if !has_operands(word, &executor.stack) {
        return (ExecutionResult::Skip, None);
    }
    match word {
        Word::Dup => {
            let v = executor.stack[executor.stack.len() - 1];
            executor.push(v);
            (ExecutionResult::Continue, None)
        },
        Word::Drop => {
            executor.pop();
            (ExecutionResult::Continue, None)
        },
        Word::Swap => {
            let b = executor.pop().unwrap();
            let a = executor.pop().unwrap();
            executor.push(b);
            executor.push(a);
            (ExecutionResult::Continue, None)
        },
        Word::Over => {
            let v = executor.stack[executor.stack.len() - 2];
            executor.push(v);
            (ExecutionResult::Continue, None)
        },
        Word::Rot => {
            let c = executor.pop().unwrap();
            let b = executor.pop().unwrap();
            let a = executor.pop().unwrap();
            executor.push(b);
            executor.push(c);
            executor.push(a);
            (ExecutionResult::Continue, None)
        },
        Word::PushFloat(v) => {
            executor.push_float(v);
            (ExecutionResult::Continue, None)
        },
        Word::PushBool(b) => {
            executor.push_bool(b);
            (ExecutionResult::Continue, None)
        },
        Word::SmellFront => {
            executor.push(sensor_value(sensors.smell_front));
            (ExecutionResult::Continue, None)
        },
        Word::SmellBack => {
            executor.push(sensor_value(sensors.smell_back));
            (ExecutionResult::Continue, None)
        },
        Word::SmellLeft => {
            executor.push(sensor_value(sensors.smell_left));
            (ExecutionResult::Continue, None)
        },
        Word::SmellRight => {
            executor.push(sensor_value(sensors.smell_right));
            (ExecutionResult::Continue, None)
        },
        Word::Energy => {
            executor.push_float(numeric_from_units(energy));
            (ExecutionResult::Continue, None)
        },
        Word::Add => {
            let b = executor.pop_float().unwrap();
            let a = executor.pop_float().unwrap();
            executor.push_float(add_numeric(a, b));
            (ExecutionResult::Continue, None)
        },
        Word::Sub => {
            let b = executor.pop_float().unwrap();
            let a = executor.pop_float().unwrap();
            executor.push_float(subtract_numeric(a, b));
            (ExecutionResult::Continue, None)
        },
        Word::Mul => {
            let b = executor.pop_float().unwrap();
            let a = executor.pop_float().unwrap();
            executor.push_float(multiply_numeric(a, b));
            (ExecutionResult::Continue, None)
        },
        Word::Div => {
            let b = executor.pop_float().unwrap();
            let a = executor.pop_float().unwrap();
            executor.push_float(divide_numeric(a, b));
            (ExecutionResult::Continue, None)
        },
        Word::Lt => {
            let b = executor.pop_float().unwrap();
            let a = executor.pop_float().unwrap();
            executor.push_bool(a < b);
            (ExecutionResult::Continue, None)
        },
        Word::Gt => {
            let b = executor.pop_float().unwrap();
            let a = executor.pop_float().unwrap();
            executor.push_bool(a > b);
            (ExecutionResult::Continue, None)
        },
        Word::Eq => {
            let b = executor.pop_float().unwrap();
            let a = executor.pop_float().unwrap();
            executor.push_bool(numerics_close(a, b));
            (ExecutionResult::Continue, None)
        },
        Word::And => {
            let b = executor.pop_bool().unwrap();
            let a = executor.pop_bool().unwrap();
            executor.push_bool(a && b);
            (ExecutionResult::Continue, None)
        },
        Word::Or => {
            let b = executor.pop_bool().unwrap();
            let a = executor.pop_bool().unwrap();
            executor.push_bool(a || b);
            (ExecutionResult::Continue, None)
        },
        Word::Not => {
            let a = executor.pop_bool().unwrap();
            executor.push_bool(!a);
            (ExecutionResult::Continue, None)
        },
        Word::If => {
            let condition = executor.pop_bool().unwrap();
            if condition {
                (ExecutionResult::Continue, None)
            } else {
                proof {
                    lemma_entry_of_if_in_table(
                        executor.jump_table@,
                        executor.instruction_pointer,
                        0,
                    );
                }
                match find_if_entry(&executor.jump_table, executor.instruction_pointer) {
                    Some(e) => match e.1 {
                        Some(else_position) => (ExecutionResult::Jump(else_position + 1), None),
                        None => (ExecutionResult::Jump(e.2 + 1), None),
                    },
                    None => (ExecutionResult::Continue, None),
                }
            }
        },
        Word::Else => {
            proof {
                lemma_entry_of_else_in_table(
                    executor.jump_table@,
                    executor.instruction_pointer,
                    0,
                );
            }
            match find_else_entry(&executor.jump_table, executor.instruction_pointer) {
                Some(e) => (ExecutionResult::Jump(e.2 + 1), None),
                None => (ExecutionResult::Continue, None),
            }
        },
        Word::Jump0 => (jump_to(executor.label_table[0]), None),
        Word::Jump1 => (jump_to(executor.label_table[1]), None),
        Word::Jump2 => (jump_to(executor.label_table[2]), None),
        Word::Jump3 => (jump_to(executor.label_table[3]), None),
        Word::MoveForward => {
            let d = executor.pop_float().unwrap();
            (
                ExecutionResult::Continue,
                Some(Effect::MoveForward(scale_and_clamp(d, MAX_MOVEMENT_SPEED))),
            )
        },
        Word::MoveBackward => {
            let d = executor.pop_float().unwrap();
            (
                ExecutionResult::Continue,
                Some(Effect::MoveBackward(scale_and_clamp(d, MAX_MOVEMENT_SPEED))),
            )
        },
        Word::TurnLeft => {
            let d = executor.pop_float().unwrap();
            (
                ExecutionResult::Continue,
                Some(Effect::TurnLeft(scale_and_clamp(d, MAX_ANGULAR_VELOCITY))),
            )
        },
        Word::TurnRight => {
            let d = executor.pop_float().unwrap();
            (
                ExecutionResult::Continue,
                Some(Effect::TurnRight(scale_and_clamp(d, MAX_ANGULAR_VELOCITY))),
            )
        },
        Word::Eat => (ExecutionResult::Continue, Some(Effect::Eat)),
        Word::Then | Word::Label0 | Word::Label1 | Word::Label2 | Word::Label3 | Word::Split
        | Word::Nop => (ExecutionResult::Continue, None),
    }
}

/// Executes one instruction of the genome: wraps the pointer into the genome,
/// fetches the word, executes it and moves the pointer. The tables of the
/// executor are read as they stand.
pub fn step(genome: &Genome, executor: &mut GenomeExecutor, energy: u32, sensors: &Sensors) -> (r:
    StepOutcome)
    requires
        genome.words@.len() > 0,
        old(executor).instructions_executed_this_frame < u32::MAX,
        old(executor).targets_fit(),
    ensures
        old(executor).wf() ==> final(executor).wf(),
        ({
            let s = step_of(
                genome.words@,
                old(executor).jump_table@,
                old(executor).label_table@,
                energy,
                *sensors,
                Machine {
                    pointer: old(executor).instruction_pointer,
                    stack: old(executor).stack@,
                    executed: old(executor).instructions_executed_this_frame as int,
                },
            );
            &&& final(executor).instruction_pointer == s.machine.pointer
            &&& final(executor).stack@ == s.machine.stack
            &&& final(executor).instructions_executed_this_frame == s.machine.executed
            &&& r.effect == s.effect
            &&& r.split == s.split
        }),
        final(executor).max_instructions_per_frame == old(executor).max_instructions_per_frame,
        final(executor).if_stack == old(executor).if_stack,
        final(executor).jump_table == old(executor).jump_table,
        final(executor).label_table == old(executor).label_table,
{
    let len: usize = genome.words.len();
    if executor.instruction_pointer >= len {
        executor.instruction_pointer = 0;
    }
    let word = genome.words[executor.instruction_pointer];
    match word {
        Word::Split => {
            executor.advance(len);
            StepOutcome { effect: None, split: energy >= SPLIT_ENERGY_COST }
        },
        _ => {
            let (result, effect) = execute_word(word, executor, energy, sensors);
            match result {
                ExecutionResult::Jump(target) => {
                    executor.instruction_pointer = target % len;
                    executor.instructions_executed_this_frame += 1;
                },
                _ => {
                    executor.advance(len);
                },
            }
            StepOutcome { effect, split: false }
        },
    }
}

/// Runs one tick of an agent: resets the counters, rebuilds both tables and
/// executes instructions until the budget is spent or the agent asks to
/// reproduce, so a tick that ends without such a request has spent its whole
/// budget. Pointer and stack carry over from the tick before. The effects
/// come back in order, with what becomes of the agent: one whose energy is
/// zero is removed whatever it executed.
pub fn run_tick(
    genome: &Genome,
    executor: &mut GenomeExecutor,
    energy: u32,
    sensors: &Sensors,
) -> (r: TickResult)
    requires
        genome.words@.len() > 0,
    ensures
        old(executor).stack@.len() <= STACK_CAPACITY ==> final(executor).wf(),
        ({
            let t = tick_of(
                genome.words@,
                energy,
                *sensors,
                old(executor).instruction_pointer,
                old(executor).stack@,
            );
            &&& final(executor).instruction_pointer == t.machine.pointer
            &&& final(executor).stack@ == t.machine.stack
            &&& final(executor).instructions_executed_this_frame == t.machine.executed
            &&& r.effects@ == t.effects
            &&& r.outcome == outcome_of(energy, t.split)
            &&& !t.split ==> final(executor).instructions_executed_this_frame == budget_for(
                energy,
            )
        }),
        r.outcome == TickOutcome::Removed <==> energy == 0,
        final(executor).instructions_executed_this_frame <= budget_for(energy),
        final(executor).max_instructions_per_frame == budget_for(energy),
        final(executor).if_stack@.len() == 0,
        final(executor).jump_table@ == jump_table_of(genome.words@),
        final(executor).label_table@ == label_table_of(genome.words@),
{
    executor.reset_for_frame(energy);
    executor.build_jump_table(genome);
    executor.build_label_table(genome);
    let mut effects: Vec<Effect> = Vec::new();
    let mut split: bool = false;
    while !split && executor.can_execute()
        invariant
            genome.words@.len() > 0,
            executor.max_instructions_per_frame == budget_for(energy),
            executor.instructions_executed_this_frame <= executor.max_instructions_per_frame,
            executor.if_stack@.len() == 0,
            executor.jump_table@ == jump_table_of(genome.words@),
            executor.label_table@ == label_table_of(genome.words@),
            executor.targets_fit(),
            old(executor).stack@.len() <= STACK_CAPACITY ==> executor.wf(),
            tick_of(
                genome.words@,
                energy,
                *sensors,
                old(executor).instruction_pointer,
                old(executor).stack@,
            ) == (if split {
                TickState {
                    machine: Machine {
                        pointer: executor.instruction_pointer,
                        stack: executor.stack@,
                        executed: executor.instructions_executed_this_frame as int,
                    },
                    effects: effects@,
                    split: true,
                }
            } else {
                run_from(
                    genome.words@,
                    jump_table_of(genome.words@),
                    label_table_of(genome.words@),
                    energy,
                    *sensors,
                    Machine {
                        pointer: executor.instruction_pointer,
                        stack: executor.stack@,
                        executed: executor.instructions_executed_this_frame as int,
                    },
                    effects@,
                    budget_for(energy) as int,
                )
            }),
        decreases
                executor.max_instructions_per_frame - executor.instructions_executed_this_frame
                    + (if split { 0int } else { 1int }),
    {
        let out = step(genome, executor, energy, sensors);
        match out.effect {
            Some(e) => {
                effects.push(e);
            },
            None => {},
        }
        split = out.split;
    }
    let outcome = if energy == 0 {
        TickOutcome::Removed
    } else if split {
        TickOutcome::Reproduce
    } else {
        TickOutcome::Persist
    };
    TickResult { effects, outcome }
}

/// A word whose operands are missing or of the wrong type is skipped: the
/// stack stays as it was, no effect arises, and the step moves the pointer
/// one word on and counts one instruction.
pub proof fn lemma_operand_error_skips(
    words: Seq<Word>,
    jump_table: Seq<JumpEntry>,
    label_table: Seq<Option<usize>>,
    energy: u32,
    sensors: Sensors,
    m: Machine,
)
    requires
        words.len() > 0,
        !operands_present(words[fetch_position(m.pointer, words.len() as int) as int], m.stack),
    ensures
        ({
            let at = fetch_position(m.pointer, words.len() as int);
            let out = word_outcome(
                words[at as int],
                m.stack,
                at,
                jump_table,
                label_table,
                energy,
                sensors,
            );
            let s = step_of(words, jump_table, label_table, energy, sensors, m);
            &&& out.result == ExecutionResult::Skip
            &&& out.stack == m.stack
            &&& out.effect.is_none()
            &&& s.machine.stack == m.stack
            &&& s.machine.pointer == next_pointer(at, words.len() as usize)
            &&& s.machine.executed == m.executed + 1
            &&& s.effect.is_none()
            &&& !s.split
        }),
{
}

/// Division by zero pushes numeric zero and goes on.
pub proof fn lemma_division_by_zero(
    stack: Seq<StackValue>,
    pointer: usize,
    jump_table: Seq<JumpEntry>,
    label_table: Seq<Option<usize>>,
    energy: u32,
    sensors: Sensors,
)
    requires
        stack.len() >= 2,
        stack[stack.len() - 2] is Float,
        stack[stack.len() - 1] == StackValue::Float(0),
    ensures
        ({
            let out = word_outcome(
                Word::Div,
                stack,
                pointer,
                jump_table,
                label_table,
                energy,
                sensors,
            );
            &&& out.result == ExecutionResult::Continue
            &&& out.stack == push_capped(stack.drop_last().drop_last(), StackValue::Float(0))
            &&& out.effect.is_none()
        }),
{
}

/// `Eq` pushes true for two numerics closer together than the tolerance, and
/// false for any other two.
pub proof fn lemma_equality_tolerance(
    stack: Seq<StackValue>,
    a: i64,
    b: i64,
    pointer: usize,
    jump_table: Seq<JumpEntry>,
    label_table: Seq<Option<usize>>,
    energy: u32,
    sensors: Sensors,
)
    requires
        stack.len() >= 2,
        stack[stack.len() - 2] == StackValue::Float(a),
        stack[stack.len() - 1] == StackValue::Float(b),
    ensures
        ({
            let out = word_outcome(
                Word::Eq,
                stack,
                pointer,
                jump_table,
                label_table,
                energy,
                sensors,
            );
            &&& out.result == ExecutionResult::Continue
            &&& out.stack == push_capped(
                stack.drop_last().drop_last(),
                StackValue::Bool(-EQUALITY_TOLERANCE < a - b < EQUALITY_TOLERANCE),
            )
        }),
{
}

/// A pointer that stands at or past the end of the genome executes the word
/// at position 0: the step is the one of a machine whose pointer is 0.
pub proof fn lemma_pointer_wraps(
    words: Seq<Word>,
    jump_table: Seq<JumpEntry>,
    label_table: Seq<Option<usize>>,
    energy: u32,
    sensors: Sensors,
    m: Machine,
)
    requires
        m.pointer >= words.len(),
    ensures
        step_of(words, jump_table, label_table, energy, sensors, m) == step_of(
            words,
            jump_table,
            label_table,
            energy,
            sensors,
            Machine { pointer: 0, stack: m.stack, executed: m.executed },
        ),
{
}

/// Pointer and stack persist from tick to tick: a tick runs on from the
/// pointer and the stack that the tick before it left, with only the counter
/// of executed instructions starting anew; and a tick without budget leaves
/// both as they were.
pub proof fn lemma_state_persists_across_ticks(
    words: Seq<Word>,
    first_energy: u32,
    first_sensors: Sensors,
    next_energy: u32,
    next_sensors: Sensors,
    pointer: usize,
    stack: Seq<StackValue>,
)
    ensures
        ({
            let first = tick_of(words, first_energy, first_sensors, pointer, stack);
            let next = tick_of(
                words,
                next_energy,
                next_sensors,
                first.machine.pointer,
                first.machine.stack,
            );
            &&& next == run_from(
                words,
                jump_table_of(words),
                label_table_of(words),
                next_energy,
                next_sensors,
                Machine {
                    pointer: first.machine.pointer,
                    stack: first.machine.stack,
                    executed: 0,
                },
                Seq::empty(),
                budget_for(next_energy) as int,
            )
            &&& next_energy == 0 ==> next.machine.pointer == first.machine.pointer
                && next.machine.stack == first.machine.stack
        }),
{
}

} // verus!
