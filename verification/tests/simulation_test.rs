use genome_vm::executor::GenomeExecutor;
use genome_vm::genome::Genome;
use genome_vm::interpreter::{run_tick, Sensors, TickOutcome};
use genome_vm::word::Word;
use rand::rngs::StdRng;
use rand::SeedableRng;

/// Genome execution doesn't panic with random genomes
#[test]
fn test_genome_execution() {
    let mut rng = StdRng::seed_from_u64(50);
    for _ in 0..20 {
        let genome = Genome::random(100, &mut rng);
        let energy: u32 = 50;
        let mut executor = GenomeExecutor::new(energy);

        // Run a few updates
        for _ in 0..5 {
            assert!(energy > 0);
            let tick = run_tick(&genome, &mut executor, energy, &Sensors::default());
            assert!(tick.outcome != TickOutcome::Removed);
            assert!(executor.instructions_executed_this_frame <= 10);
            assert!(executor.instruction_pointer < genome.words.len());
            assert!(executor.stack.len() <= 256);
        }
    }
}

/// The machine runs for 2 frames and carries its state from one to the next
#[test]
fn test_two_frame_execution() {
    let genome = Genome { words: vec![Word::PushBool(true), Word::Nop, Word::Eat] };
    let mut executor = GenomeExecutor::new(2);
    let mut frames = 0;

    // Run 2 frames
    for _ in 0..2 {
        run_tick(&genome, &mut executor, 2, &Sensors::default());
        frames += 1;
    }

    // Verify we completed 2 frames
    assert_eq!(frames, 2, "Should have run exactly 2 frames");
    assert_eq!(executor.instruction_pointer, 1);
    assert_eq!(executor.stack.len(), 2);
}

/// Agents with zero energy are removed and are not marked for reproduction
#[test]
fn test_zero_energy_entity_despawn() {
    let genome = Genome { words: vec![Word::Split] };

    // Agents with different energy levels
    let outcomes: Vec<TickOutcome> = [0u32, 5, 20]
        .iter()
        .map(|&energy| {
            let mut executor = GenomeExecutor::new(energy);
            run_tick(&genome, &mut executor, energy, &Sensors::default()).outcome
        })
        .collect();

    // Verify the zero-energy agent was removed
    let remaining = outcomes.iter().filter(|o| **o != TickOutcome::Removed).count();
    assert_eq!(remaining, 2, "Should have 2 entities remaining after despawn");

    // Verify the high-energy agent is marked
    let with_action = outcomes.iter().filter(|o| **o == TickOutcome::Reproduce).count();
    assert_eq!(with_action, 1, "Should have 1 entity with PendingAction");
    assert_eq!(
        outcomes,
        vec![TickOutcome::Removed, TickOutcome::Persist, TickOutcome::Reproduce]
    );
}
