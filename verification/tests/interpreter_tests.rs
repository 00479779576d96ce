use genome_vm::config::{NO_SIGNAL, NUMERIC_SCALE};
use genome_vm::executor::{GenomeExecutor, StackValue};
use genome_vm::genome::Genome;
use genome_vm::interpreter::{
    execute_word, has_operands, run_tick, sector_of, step, Effect, ExecutionResult, Sector,
    Sensors, TickOutcome,
};
use genome_vm::word::Word;

fn units(x: i64) -> i64 {
    x * NUMERIC_SCALE
}

fn executor_with(stack: Vec<StackValue>) -> GenomeExecutor {
    let mut ex = GenomeExecutor::new(10);
    ex.stack = stack;
    ex
}

fn run_one(word: Word, stack: Vec<StackValue>) -> (ExecutionResult, Option<Effect>, Vec<StackValue>) {
    let mut ex = executor_with(stack);
    let (r, e) = execute_word(word, &mut ex, 7, &Sensors::default());
    (r, e, ex.stack)
}

#[test]
fn end_to_end_comparison_guards_movement() {
    let genome = Genome {
        words: vec![
            Word::PushFloat(units(5)),
            Word::PushFloat(units(3)),
            Word::Gt,
            Word::If,
            Word::PushFloat(units(1)),
            Word::MoveForward,
            Word::Then,
        ],
    };
    let mut ex = GenomeExecutor::new(10);
    let r = run_tick(&genome, &mut ex, 10, &Sensors::default());
    assert_eq!(r.effects, vec![Effect::MoveForward(10_000)]);
    assert_eq!(r.outcome, TickOutcome::Persist);
    assert_eq!(ex.instructions_executed_this_frame, 10);
    assert_eq!(ex.instruction_pointer, 3);
    assert_eq!(ex.stack, vec![StackValue::Bool(true)]);
}

#[test]
fn four_instructions_reach_the_branch() {
    let genome = Genome {
        words: vec![
            Word::PushFloat(units(5)),
            Word::PushFloat(units(3)),
            Word::Gt,
            Word::If,
            Word::PushFloat(units(1)),
            Word::MoveForward,
            Word::Then,
        ],
    };
    let mut ex = GenomeExecutor::new(4);
    let r = run_tick(&genome, &mut ex, 4, &Sensors::default());
    assert_eq!(ex.instructions_executed_this_frame, 4);
    assert_eq!(ex.instruction_pointer, 4);
    assert!(ex.stack.is_empty());
    assert!(r.effects.is_empty());
    let r2 = run_tick(&genome, &mut ex, 2, &Sensors::default());
    assert_eq!(r2.effects, vec![Effect::MoveForward(10_000)]);
    assert_eq!(ex.instruction_pointer, 6);
}

#[test]
fn false_condition_skips_the_branch() {
    let genome = Genome {
        words: vec![
            Word::PushFloat(units(3)),
            Word::PushFloat(units(5)),
            Word::Gt,
            Word::If,
            Word::PushFloat(units(1)),
            Word::MoveForward,
            Word::Then,
            Word::Eat,
        ],
    };
    let mut ex = GenomeExecutor::new(5);
    let r = run_tick(&genome, &mut ex, 5, &Sensors::default());
    assert_eq!(r.effects, vec![Effect::Eat]);
    assert_eq!(ex.instruction_pointer, 0);
}

#[test]
fn else_branch_runs_on_false_and_is_skipped_on_true() {
    let words = |cond: bool| {
        vec![
            Word::PushBool(cond),
            Word::If,
            Word::PushFloat(units(100)),
            Word::Else,
            Word::PushFloat(units(200)),
            Word::Then,
            Word::Nop,
        ]
    };
    let g_true = Genome { words: words(true) };
    let mut ex = GenomeExecutor::new(4);
    run_tick(&g_true, &mut ex, 4, &Sensors::default());
    assert_eq!(ex.stack, vec![StackValue::Float(units(100))]);
    assert_eq!(ex.instruction_pointer, 6);

    let g_false = Genome { words: words(false) };
    let mut ex = GenomeExecutor::new(4);
    run_tick(&g_false, &mut ex, 4, &Sensors::default());
    assert_eq!(ex.stack, vec![StackValue::Float(units(200))]);
    assert_eq!(ex.instruction_pointer, 6);
}

#[test]
fn jump_table_nests_conditionals() {
    // If A Then If B Else C Then
    let genome = Genome {
        words: vec![
            Word::If,
            Word::Nop,
            Word::Then,
            Word::If,
            Word::Dup,
            Word::Else,
            Word::Drop,
            Word::Then,
        ],
    };
    let mut ex = GenomeExecutor::new(10);
    ex.build_jump_table(&genome);
    assert_eq!(ex.jump_table, vec![(0, None, 2), (3, Some(5), 7)]);
    ex.build_jump_table(&genome);
    assert_eq!(ex.jump_table, vec![(0, None, 2), (3, Some(5), 7)]);
}

#[test]
fn jump_table_matches_innermost_first() {
    // If If Else Then Else Then, then an If that nothing closes
    let genome = Genome {
        words: vec![
            Word::If,
            Word::If,
            Word::Else,
            Word::Then,
            Word::Else,
            Word::Then,
            Word::Then,
            Word::Else,
            Word::If,
        ],
    };
    let mut ex = GenomeExecutor::new(10);
    ex.build_jump_table(&genome);
    assert_eq!(ex.jump_table, vec![(1, Some(2), 3), (0, Some(4), 5)]);
}

#[test]
fn label_table_records_first_occurrence() {
    let genome = Genome {
        words: vec![Word::Nop, Word::Label2, Word::Label0, Word::Label2, Word::Label0],
    };
    let mut ex = GenomeExecutor::new(10);
    ex.build_label_table(&genome);
    assert_eq!(ex.label_table, [Some(2), None, Some(1), None]);
}

#[test]
fn jump_goes_to_label_and_missing_label_is_a_no_op() {
    let genome = Genome {
        words: vec![Word::Jump1, Word::Jump0, Word::PushBool(true), Word::Label0, Word::Eat],
    };
    let mut ex = GenomeExecutor::new(4);
    let r = run_tick(&genome, &mut ex, 4, &Sensors::default());
    // Jump1 (no label) -> Jump0 -> Label0 -> Eat
    assert_eq!(r.effects, vec![Effect::Eat]);
    assert!(ex.stack.is_empty());
    assert_eq!(ex.instruction_pointer, 0);
}

#[test]
fn pointer_wraps_and_stack_persists_across_ticks() {
    let genome = Genome { words: vec![Word::PushFloat(units(7)), Word::Nop, Word::Nop] };
    let mut ex = GenomeExecutor::new(3);
    run_tick(&genome, &mut ex, 3, &Sensors::default());
    assert_eq!(ex.instruction_pointer, 0);
    assert_eq!(ex.stack, vec![StackValue::Float(units(7))]);

    ex.instruction_pointer = 3;
    let out = {
        ex.reset_for_frame(1);
        ex.build_jump_table(&genome);
        ex.build_label_table(&genome);
        step(&genome, &mut ex, 1, &Sensors::default())
    };
    assert_eq!(out.effect, None);
    assert_eq!(ex.instruction_pointer, 1);
    assert_eq!(ex.stack, vec![StackValue::Float(units(7)), StackValue::Float(units(7))]);

    ex.instruction_pointer = 3;
    run_tick(&genome, &mut ex, 1, &Sensors::default());
    assert_eq!(ex.instruction_pointer, 1);
    assert_eq!(ex.stack.len(), 3);
}

#[test]
fn budget_is_energy_capped_at_ten() {
    assert_eq!(GenomeExecutor::new(0).max_instructions_per_frame, 0);
    assert_eq!(GenomeExecutor::new(3).max_instructions_per_frame, 3);
    assert_eq!(GenomeExecutor::new(9).max_instructions_per_frame, 9);
    assert_eq!(GenomeExecutor::new(10).max_instructions_per_frame, 10);
    assert_eq!(GenomeExecutor::new(4_000_000_000).max_instructions_per_frame, 10);
    let mut ex = GenomeExecutor::new(10);
    ex.reset_for_frame(6);
    assert_eq!(ex.max_instructions_per_frame, 6);
    assert!(ex.can_execute());
    ex.reset_for_frame(0);
    assert!(!ex.can_execute());
}

#[test]
fn agent_without_energy_is_removed() {
    let genome = Genome { words: vec![Word::Eat, Word::Split] };
    let mut ex = GenomeExecutor::new(10);
    ex.stack.push(StackValue::Bool(true));
    ex.instruction_pointer = 1;
    let r = run_tick(&genome, &mut ex, 0, &Sensors::default());
    assert_eq!(r.outcome, TickOutcome::Removed);
    assert!(r.effects.is_empty());
    assert_eq!(ex.instructions_executed_this_frame, 0);
    assert_eq!(ex.instruction_pointer, 1);
    assert_eq!(ex.stack, vec![StackValue::Bool(true)]);
}

#[test]
fn split_needs_its_cost_and_ends_the_tick() {
    let genome = Genome { words: vec![Word::Eat, Word::Split, Word::Eat] };
    let mut ex = GenomeExecutor::new(10);
    let r = run_tick(&genome, &mut ex, 10, &Sensors::default());
    assert_eq!(r.outcome, TickOutcome::Reproduce);
    assert_eq!(r.effects, vec![Effect::Eat]);
    assert_eq!(ex.instructions_executed_this_frame, 2);
    assert_eq!(ex.instruction_pointer, 2);

    let mut ex = GenomeExecutor::new(9);
    let r = run_tick(&genome, &mut ex, 9, &Sensors::default());
    assert_eq!(r.outcome, TickOutcome::Persist);
    assert_eq!(r.effects.len(), 6);
    assert_eq!(ex.instructions_executed_this_frame, 9);
}

#[test]
fn division_by_zero_gives_zero() {
    let (r, e, stack) =
        run_one(Word::Div, vec![StackValue::Float(units(5)), StackValue::Float(0)]);
    assert_eq!(r, ExecutionResult::Continue);
    assert_eq!(e, None);
    assert_eq!(stack, vec![StackValue::Float(0)]);
}

#[test]
fn arithmetic_pops_b_then_a() {
    let two = |a: i64, b: i64| vec![StackValue::Float(a), StackValue::Float(b)];
    assert_eq!(run_one(Word::Add, two(units(5), units(3))).2, vec![StackValue::Float(units(8))]);
    assert_eq!(run_one(Word::Sub, two(units(5), units(3))).2, vec![StackValue::Float(units(2))]);
    assert_eq!(run_one(Word::Mul, two(1_500_000, units(3))).2, vec![StackValue::Float(4_500_000)]);
    assert_eq!(run_one(Word::Div, two(units(1), units(3))).2, vec![StackValue::Float(333_333)]);
    assert_eq!(run_one(Word::Div, two(units(-1), units(3))).2, vec![StackValue::Float(-333_333)]);
    assert_eq!(run_one(Word::Lt, two(units(5), units(3))).2, vec![StackValue::Bool(false)]);
    assert_eq!(run_one(Word::Lt, two(units(3), units(5))).2, vec![StackValue::Bool(true)]);
    assert_eq!(run_one(Word::Gt, two(units(5), units(3))).2, vec![StackValue::Bool(true)]);
    assert_eq!(run_one(Word::Gt, two(units(3), units(3))).2, vec![StackValue::Bool(false)]);
}

#[test]
fn equality_uses_the_tolerance() {
    let two = |a: i64, b: i64| vec![StackValue::Float(a), StackValue::Float(b)];
    assert_eq!(run_one(Word::Eq, two(1_000_000, 1_000_999)).2, vec![StackValue::Bool(true)]);
    assert_eq!(run_one(Word::Eq, two(1_000_999, 1_000_000)).2, vec![StackValue::Bool(true)]);
    assert_eq!(run_one(Word::Eq, two(1_000_000, 1_001_000)).2, vec![StackValue::Bool(false)]);
    assert_eq!(run_one(Word::Eq, two(1_002_000, 1_000_000)).2, vec![StackValue::Bool(false)]);
    assert_eq!(run_one(Word::Eq, two(i64::MIN, i64::MAX)).2, vec![StackValue::Bool(false)]);
}

#[test]
fn logic_words() {
    let two = |a: bool, b: bool| vec![StackValue::Bool(a), StackValue::Bool(b)];
    assert_eq!(run_one(Word::And, two(true, false)).2, vec![StackValue::Bool(false)]);
    assert_eq!(run_one(Word::And, two(true, true)).2, vec![StackValue::Bool(true)]);
    assert_eq!(run_one(Word::Or, two(true, false)).2, vec![StackValue::Bool(true)]);
    assert_eq!(run_one(Word::Or, two(false, false)).2, vec![StackValue::Bool(false)]);
    assert_eq!(run_one(Word::Not, vec![StackValue::Bool(false)]).2, vec![StackValue::Bool(true)]);
}

#[test]
fn stack_words() {
    let a = StackValue::Float(1);
    let b = StackValue::Bool(true);
    let c = StackValue::Float(3);
    assert_eq!(run_one(Word::Dup, vec![a, b]).2, vec![a, b, b]);
    assert_eq!(run_one(Word::Drop, vec![a, b]).2, vec![a]);
    assert_eq!(run_one(Word::Swap, vec![c, a, b]).2, vec![c, b, a]);
    assert_eq!(run_one(Word::Over, vec![a, b]).2, vec![a, b, a]);
    assert_eq!(run_one(Word::Rot, vec![a, b, c]).2, vec![b, c, a]);
}

#[test]
fn missing_or_wrong_operands_skip_and_keep_the_stack() {
    let f = StackValue::Float(units(2));
    let t = StackValue::Bool(true);
    let cases: Vec<(Word, Vec<StackValue>)> = vec![
        (Word::Dup, vec![]),
        (Word::Drop, vec![]),
        (Word::Swap, vec![f]),
        (Word::Over, vec![t]),
        (Word::Rot, vec![f, t]),
        (Word::Add, vec![f]),
        (Word::Add, vec![t, f]),
        (Word::Sub, vec![f, t]),
        (Word::Mul, vec![]),
        (Word::Div, vec![t, t]),
        (Word::Lt, vec![f, t]),
        (Word::Gt, vec![t, f]),
        (Word::Eq, vec![f]),
        (Word::And, vec![t, f]),
        (Word::Or, vec![t]),
        (Word::Not, vec![f]),
        (Word::If, vec![f]),
        (Word::If, vec![]),
        (Word::MoveForward, vec![t]),
        (Word::MoveBackward, vec![]),
        (Word::TurnLeft, vec![t]),
        (Word::TurnRight, vec![]),
    ];
    for (word, stack) in cases {
        assert!(!has_operands(word, &stack));
        let (r, e, after) = run_one(word, stack.clone());
        assert_eq!(r, ExecutionResult::Skip);
        assert_eq!(e, None);
        assert_eq!(after, stack);

        let genome = Genome { words: vec![word, Word::Nop] };
        let mut ex = executor_with(stack.clone());
        ex.build_jump_table(&genome);
        ex.build_label_table(&genome);
        let out = step(&genome, &mut ex, 7, &Sensors::default());
        assert_eq!(out.effect, None);
        assert!(!out.split);
        assert_eq!(ex.instruction_pointer, 1);
        assert_eq!(ex.instructions_executed_this_frame, 1);
        assert_eq!(ex.stack, stack);
    }
}

#[test]
fn movement_is_scaled_and_clamped() {
    let one = |v: i64| vec![StackValue::Float(v)];
    assert_eq!(run_one(Word::MoveForward, one(units(1))).1, Some(Effect::MoveForward(10_000)));
    assert_eq!(run_one(Word::MoveForward, one(units(100))).1, Some(Effect::MoveForward(500_000)));
    assert_eq!(
        run_one(Word::MoveBackward, one(units(-100))).1,
        Some(Effect::MoveBackward(-500_000))
    );
    assert_eq!(run_one(Word::TurnLeft, one(units(90))).1, Some(Effect::TurnLeft(900_000)));
    assert_eq!(run_one(Word::TurnLeft, one(units(900))).1, Some(Effect::TurnLeft(5_000_000)));
    assert_eq!(run_one(Word::TurnRight, one(units(-900))).1, Some(Effect::TurnRight(-5_000_000)));
    assert_eq!(run_one(Word::TurnRight, one(-199)).1, Some(Effect::TurnRight(-1)));
    assert!(run_one(Word::MoveForward, one(units(1))).2.is_empty());
}

#[test]
fn sensors_push_readings_or_no_signal() {
    let sensors = Sensors {
        smell_front: Some(units(12)),
        smell_back: None,
        smell_left: Some(5),
        smell_right: None,
    };
    let mut ex = GenomeExecutor::new(10);
    for w in [Word::SmellFront, Word::SmellBack, Word::SmellLeft, Word::SmellRight, Word::Energy] {
        let (r, e) = execute_word(w, &mut ex, 42, &sensors);
        assert_eq!(r, ExecutionResult::Continue);
        assert_eq!(e, None);
    }
    assert_eq!(NO_SIGNAL, units(999_999));
    assert_eq!(
        ex.stack,
        vec![
            StackValue::Float(units(12)),
            StackValue::Float(NO_SIGNAL),
            StackValue::Float(5),
            StackValue::Float(NO_SIGNAL),
            StackValue::Float(units(42)),
        ]
    );
}

#[test]
fn pushes_beyond_capacity_are_dropped() {
    let mut ex = GenomeExecutor::new(10);
    for i in 0..300 {
        ex.push_float(i);
    }
    assert_eq!(ex.stack.len(), 256);
    ex.push_bool(true);
    ex.push(StackValue::Bool(false));
    execute_word(Word::Dup, &mut ex, 1, &Sensors::default());
    execute_word(Word::Over, &mut ex, 1, &Sensors::default());
    assert_eq!(ex.stack.len(), 256);
    assert_eq!(ex.peek(), Some(&StackValue::Float(255)));
}

#[test]
fn typed_pops() {
    let mut ex = executor_with(vec![
        StackValue::Float(1),
        StackValue::Bool(true),
        StackValue::Float(2),
        StackValue::Bool(false),
    ]);
    assert_eq!(ex.pop_float(), None);
    assert_eq!(ex.pop_float(), Some(2));
    assert_eq!(ex.pop_bool(), Some(true));
    assert_eq!(ex.pop_bool(), None);
    assert_eq!(ex.pop(), None);
    assert_eq!(ex.peek(), None);
    assert_eq!(StackValue::Float(3).as_float(), Some(3));
    assert_eq!(StackValue::Float(3).as_bool(), None);
    assert_eq!(StackValue::Bool(true).as_bool(), Some(true));
    assert_eq!(StackValue::Bool(true).as_float(), None);
}

#[test]
fn advance_wraps_and_counts() {
    let mut ex = GenomeExecutor::new(10);
    ex.advance(3);
    ex.advance(3);
    assert_eq!(ex.instruction_pointer, 2);
    ex.advance(3);
    assert_eq!(ex.instruction_pointer, 0);
    assert_eq!(ex.instructions_executed_this_frame, 3);
    ex.instruction_pointer = usize::MAX;
    ex.advance(3);
    assert_eq!(ex.instruction_pointer, 0);
}

#[test]
fn sectors_and_nearest_reading() {
    assert_eq!(sector_of(5, 3), Sector::Front);
    assert_eq!(sector_of(-5, 3), Sector::Back);
    assert_eq!(sector_of(3, 5), Sector::Right);
    assert_eq!(sector_of(3, -5), Sector::Left);
    assert_eq!(sector_of(4, 4), Sector::Right);
    assert_eq!(sector_of(0, 0), Sector::Left);
    assert_eq!(sector_of(i64::MIN, i64::MAX), Sector::Back);
    let mut s = Sensors::default();
    s.record(Sector::Front, 30);
    s.record(Sector::Front, 20);
    s.record(Sector::Front, 25);
    s.record(Sector::Left, 7);
    assert_eq!(
        s,
        Sensors { smell_front: Some(20), smell_back: None, smell_left: Some(7), smell_right: None }
    );
}
