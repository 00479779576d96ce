use genome_vm::ecology::{is_expired, nearest_in_reach, offspring_energy, Plant};
use genome_vm::genome::{Edit, Genome};
use genome_vm::numeric::{
    add_numeric, divide_numeric, multiply_numeric, numeric_from_units, numerics_close,
    one_place_string, scale_and_clamp, subtract_numeric, two_place_string,
};
use genome_vm::executor::StackValue;
use genome_vm::word::{Word, WordCategory};
use rand::rngs::StdRng;
use rand::SeedableRng;

fn count(words: &[Word], w: Word) -> usize {
    words.iter().filter(|x| **x == w).count()
}

#[test]
fn mutation_keeps_conditionals_balanced() {
    let mut rng = StdRng::seed_from_u64(11);
    let mut genome = Genome::random(100, &mut rng);
    for _ in 0..200 {
        let child = genome.mutate(&mut rng);
        assert_eq!(count(&child.words, Word::If), count(&child.words, Word::Then));
        if !child.words.is_empty() {
            genome = child;
        }
    }
}

#[test]
fn child_is_empty_only_where_nothing_but_thens_is_left() {
    let parent = Genome { words: vec![Word::Eat, Word::Then] };
    let keep = Edit::Keep { duplicate: false };
    assert_eq!(parent.mutate_with(&vec![keep, keep], Word::Nop).words, vec![Word::Eat]);
    assert_eq!(parent.mutate_with(&vec![Edit::Delete, Edit::Delete], Word::Nop).words, vec![Word::Nop]);
    assert_eq!(
        parent.mutate_with(&vec![Edit::Delete, Edit::Delete], Word::If).words,
        vec![Word::If, Word::Then]
    );
    // nothing but `Then`s before balancing: all of them leave
    assert_eq!(parent.mutate_with(&vec![Edit::Delete, keep], Word::Nop).words, vec![]);
    let only_then = Genome { words: vec![Word::Then] };
    assert_eq!(only_then.mutate_with(&vec![keep], Word::Nop).words, vec![]);
    let empty = Genome { words: vec![] };
    assert_eq!(empty.mutate_with(&vec![], Word::Nop).words, vec![Word::Nop]);

    let mut rng = StdRng::seed_from_u64(5);
    let program = Genome { words: vec![Word::Eat, Word::If, Word::Nop, Word::Then, Word::Dup] };
    for _ in 0..500 {
        let child = program.mutate(&mut rng);
        assert!(!child.words.is_empty());
    }
}

#[test]
fn mutation_leaves_the_parent_alone_and_repeats_with_the_seed() {
    let mut seed_rng = StdRng::seed_from_u64(3);
    let parent = Genome::random(60, &mut seed_rng);
    let before = parent.words.clone();
    let a = parent.mutate(&mut StdRng::seed_from_u64(99));
    let b = parent.mutate(&mut StdRng::seed_from_u64(99));
    assert_eq!(a.words, b.words);
    assert_eq!(parent.words, before);
}

#[test]
fn edits_delete_replace_and_duplicate() {
    let parent = Genome { words: vec![Word::Eat, Word::Nop, Word::Dup, Word::Add] };
    let edits = vec![
        Edit::Delete,
        Edit::Keep { duplicate: true },
        Edit::Replace { word: Word::Mul, duplicate: false },
        Edit::Replace { word: Word::Sub, duplicate: true },
    ];
    assert_eq!(
        parent.apply_edits(&edits),
        vec![Word::Nop, Word::Nop, Word::Mul, Word::Sub, Word::Sub]
    );
    assert_eq!(parent.apply_edits(&vec![Edit::Delete]), vec![Word::Nop, Word::Dup, Word::Add]);
    let child = parent.mutate_with(&vec![Edit::Delete; 4], Word::If);
    assert_eq!(child.words, vec![Word::If, Word::Then]);
    let child = parent.mutate_with(&vec![Edit::Delete; 4], Word::Then);
    assert_eq!(child.words, vec![]);
}

#[test]
fn edit_from_rolls() {
    assert_eq!(Edit::from_rolls(0, 0, 0, Word::Eat), Edit::Delete);
    assert_eq!(
        Edit::from_rolls(1, 0, 0, Word::Eat),
        Edit::Replace { word: Word::Eat, duplicate: true }
    );
    assert_eq!(
        Edit::from_rolls(99, 0, 1, Word::Eat),
        Edit::Replace { word: Word::Eat, duplicate: false }
    );
    assert_eq!(Edit::from_rolls(1, 1, 0, Word::Eat), Edit::Keep { duplicate: true });
    assert_eq!(Edit::from_rolls(50, 50, 50, Word::Eat), Edit::Keep { duplicate: false });
}

#[test]
fn balancing_appends_missing_thens() {
    let mut words = vec![Word::If, Word::If, Word::Then, Word::Else, Word::If];
    Genome::balance_control_flow(&mut words);
    assert_eq!(
        words,
        vec![Word::If, Word::If, Word::Then, Word::Else, Word::If, Word::Then, Word::Then]
    );
}

#[test]
fn balancing_removes_excess_thens_from_the_end() {
    let mut words =
        vec![Word::Then, Word::If, Word::Then, Word::Eat, Word::Then, Word::Nop, Word::Then];
    Genome::balance_control_flow(&mut words);
    assert_eq!(words, vec![Word::Then, Word::If, Word::Eat, Word::Nop]);
    let mut only = vec![Word::Then, Word::Then];
    Genome::balance_control_flow(&mut only);
    assert!(only.is_empty());
    let mut fine = vec![Word::If, Word::Then];
    Genome::balance_control_flow(&mut fine);
    assert_eq!(fine, vec![Word::If, Word::Then]);
}

#[test]
fn random_genome_has_the_length_and_varied_words() {
    let mut rng = StdRng::seed_from_u64(1);
    let g = Genome::random(400, &mut rng);
    assert_eq!(g.words.len(), 400);
    assert!(g.words.iter().any(|w| *w != g.words[0]));
    assert!(g.words.iter().any(|w| w.category() == WordCategory::Sensor));
    assert!(g.words.iter().any(|w| w.category() == WordCategory::Action));
    assert!(g.words.iter().any(|w| *w == Word::If));
    for w in &g.words {
        if let Word::PushFloat(v) = w {
            assert!(
                (10_000..200_000).contains(v)
                    || (50_000..900_000).contains(v)
                    || (50_000_000..500_000_000).contains(v)
            );
        }
    }
    let again = Genome::random(400, &mut StdRng::seed_from_u64(1));
    assert_eq!(g.words, again.words);
}

#[test]
fn words_from_rolls() {
    assert_eq!(Word::from_rolls(0, 0), Word::SmellFront);
    assert_eq!(Word::from_rolls(19, 0), Word::SmellRight);
    assert_eq!(Word::from_rolls(20, 0), Word::PushFloat(10_000));
    assert_eq!(Word::from_rolls(24, 189_999), Word::PushFloat(199_999));
    assert_eq!(Word::from_rolls(25, 1), Word::PushFloat(50_001));
    assert_eq!(Word::from_rolls(34, 449_999_999), Word::PushFloat(499_999_999));
    assert_eq!(Word::from_rolls(35, 0), Word::PushBool(false));
    assert_eq!(Word::from_rolls(39, 1), Word::PushBool(true));
    assert_eq!(Word::from_rolls(40, 0), Word::Lt);
    assert_eq!(Word::from_rolls(54, 0), Word::Eq);
    assert_eq!(Word::from_rolls(55, 0), Word::If);
    assert_eq!(Word::from_rolls(62, 0), Word::Then);
    assert_eq!(Word::from_rolls(64, 0), Word::Else);
    assert_eq!(Word::from_rolls(74, 0), Word::Div);
    assert_eq!(Word::from_rolls(78, 0), Word::MoveForward);
    assert_eq!(Word::from_rolls(88, 0), Word::TurnRight);
    assert_eq!(Word::from_rolls(93, 0), Word::Eat);
    assert_eq!(Word::from_rolls(95, 0), Word::Split);
    assert_eq!(Word::from_rolls(96, 2), Word::Label2);
    assert_eq!(Word::from_rolls(98, 3), Word::Label3);
    assert_eq!(Word::from_rolls(99, 0), Word::Jump0);
    assert_eq!(Word::from_rolls(99, 6), Word::Energy);
    assert_eq!(Word::from_rolls(99, 7), Word::Nop);
    assert_eq!(Word::detail_span(0), 1);
    assert_eq!(Word::detail_span(22), 190_000);
    assert_eq!(Word::detail_span(27), 850_000);
    assert_eq!(Word::detail_span(30), 450_000_000);
    assert_eq!(Word::detail_span(36), 2);
    assert_eq!(Word::detail_span(97), 4);
    assert_eq!(Word::detail_span(99), 8);
}

#[test]
fn tokens_categories_and_stack_effects() {
    assert_eq!(Word::Add.to_text(), "+");
    assert_eq!(Word::Sub.to_text(), "-");
    assert_eq!(Word::Mul.to_text(), "*");
    assert_eq!(Word::Div.to_text(), "/");
    assert_eq!(Word::Lt.to_text(), "<");
    assert_eq!(Word::Gt.to_text(), ">");
    assert_eq!(Word::Eq.to_text(), "=");
    assert_eq!(Word::MoveForward.to_text(), "move-forward");
    assert_eq!(Word::TurnRight.to_text(), "turn-right");
    assert_eq!(Word::SmellLeft.to_text(), "smell-left");
    assert_eq!(Word::Label3.to_text(), "label3");
    assert_eq!(Word::Jump0.to_text(), "jump0");
    assert_eq!(Word::PushBool(true).to_text(), "true");
    assert_eq!(Word::PushBool(false).to_text(), "false");
    assert_eq!(Word::PushFloat(5_000_000).to_text(), "5.0");
    assert_eq!(Word::PushFloat(123_456_000).to_text(), "123.5");
    assert_eq!(Word::PushFloat(-250_000).to_text(), "-0.3");
    assert_eq!(Word::PushFloat(49_999).to_text(), "0.0");
    assert_eq!(Word::PushFloat(i64::MIN).to_text(), "-9223372036854.8");
    assert_eq!(StackValue::Float(1_234_567).to_text(), "1.23");
    assert_eq!(StackValue::Float(-5_000).to_text(), "-0.01");
    assert_eq!(StackValue::Float(999_999_000_000).to_text(), "999999.00");
    assert_eq!(StackValue::Bool(true).to_text(), "true");
    assert_eq!(one_place_string(950_000), "1.0");
    assert_eq!(two_place_string(10_995_000), "11.00");
    let g = Genome { words: vec![Word::If, Word::Dup, Word::Then, Word::PushFloat(1_500_000)] };
    assert_eq!(g.tokens(), vec!["if", "dup", "then", "1.5"]);

    assert_eq!(Word::Rot.category(), WordCategory::Stack);
    assert_eq!(Word::PushFloat(1).category(), WordCategory::Sensor);
    assert_eq!(Word::Energy.category(), WordCategory::Sensor);
    assert_eq!(Word::Not.category(), WordCategory::Arithmetic);
    assert_eq!(Word::Jump2.category(), WordCategory::Control);
    assert_eq!(Word::Else.category(), WordCategory::Control);
    assert_eq!(Word::Split.category(), WordCategory::Action);
    assert_eq!(Word::Nop.category(), WordCategory::Special);
    assert_eq!(Word::Dup.stack_effect(), "( a -- a a )");
    assert_eq!(Word::Rot.stack_effect(), "( a b c -- b c a )");
    assert_eq!(Word::Add.stack_effect(), "( a b -- result )");
    assert_eq!(Word::Gt.stack_effect(), "( a b -- bool )");
    assert_eq!(Word::If.stack_effect(), "( bool -- )");
    assert_eq!(Word::Nop.stack_effect(), "( -- )");
}

#[test]
fn fixed_point_arithmetic() {
    assert_eq!(add_numeric(1_500_000, 2_250_000), 3_750_000);
    assert_eq!(add_numeric(i64::MAX, 1), i64::MAX);
    assert_eq!(add_numeric(i64::MIN, -1), i64::MIN);
    assert_eq!(subtract_numeric(1_000_000, 2_500_000), -1_500_000);
    assert_eq!(subtract_numeric(i64::MIN, 1), i64::MIN);
    assert_eq!(multiply_numeric(1_500_000, 2_000_000), 3_000_000);
    assert_eq!(multiply_numeric(-1_500_000, 2_000_000), -3_000_000);
    assert_eq!(multiply_numeric(1, 1), 0);
    assert_eq!(multiply_numeric(-1_999_999, 1), -1);
    assert_eq!(multiply_numeric(i64::MAX, i64::MAX), i64::MAX);
    assert_eq!(multiply_numeric(i64::MIN, i64::MAX), i64::MIN);
    assert_eq!(multiply_numeric(i64::MIN, i64::MIN), i64::MAX);
    assert_eq!(divide_numeric(1_000_000, 4_000_000), 250_000);
    assert_eq!(divide_numeric(-7_000_000, 2_000_000), -3_500_000);
    assert_eq!(divide_numeric(2_000_000, -3_000_000), -666_666);
    assert_eq!(divide_numeric(7_000_000, 0), 0);
    assert_eq!(divide_numeric(i64::MAX, 1), i64::MAX);
    assert_eq!(divide_numeric(i64::MIN, 1), i64::MIN);
    assert!(numerics_close(5_000_000, 5_000_999));
    assert!(!numerics_close(5_000_000, 5_001_000));
    assert!(!numerics_close(i64::MAX, i64::MIN));
    assert_eq!(numeric_from_units(0), 0);
    assert_eq!(numeric_from_units(3), 3_000_000);
    assert_eq!(numeric_from_units(u32::MAX), 4_294_967_295_000_000);
    assert_eq!(scale_and_clamp(25_000_000, 500_000), 250_000);
    assert_eq!(scale_and_clamp(-25_000_000, 500_000), -250_000);
    assert_eq!(scale_and_clamp(i64::MIN, 500_000), -500_000);
    assert_eq!(scale_and_clamp(i64::MAX, 5_000_000), 5_000_000);
    assert_eq!(scale_and_clamp(-150, 500_000), -1);
}

#[test]
fn plants_and_offspring() {
    let mut p = Plant::new();
    assert_eq!(p.energy, 0);
    p.add_energy(30);
    assert_eq!(p.energy, 30);
    assert_eq!(p.eaten(), 20);
    assert_eq!(p.energy, 10);
    assert_eq!(p.eaten(), 10);
    assert_eq!(p.energy, 0);
    assert_eq!(p.eaten(), 0);
    p.add_energy(99);
    p.add_energy(u32::MAX);
    assert_eq!(p.energy, 100);
    p.consume_energy(40);
    assert_eq!(p.energy, 60);
    p.consume_energy(61);
    assert_eq!(p.energy, 0);
    assert_eq!(offspring_energy(10), 0);
    assert_eq!(offspring_energy(9), 0);
    assert_eq!(offspring_energy(31), 10);
    assert_eq!(offspring_energy(u32::MAX), 2_147_483_642);
}

#[test]
fn nearest_source_in_reach() {
    assert_eq!(nearest_in_reach(&vec![], 10), None);
    assert_eq!(nearest_in_reach(&vec![11, 12], 10), None);
    assert_eq!(nearest_in_reach(&vec![11, 10, 12], 10), Some(1));
    assert_eq!(nearest_in_reach(&vec![9, 3, 7, 3, 12], 10), Some(1));
    assert_eq!(nearest_in_reach(&vec![5, 5, 5], 5), Some(0));
    assert_eq!(nearest_in_reach(&vec![i64::MAX, i64::MIN], 0), Some(1));
}

#[test]
fn agents_expire_without_energy_or_at_the_lifespan() {
    assert!(is_expired(0, 0));
    assert!(is_expired(5, 60_000_000));
    assert!(is_expired(5, 60_000_001));
    assert!(!is_expired(5, 59_999_999));
    assert!(!is_expired(1, 0));
}
