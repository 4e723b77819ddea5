use evolver::errors::EvolveError;
use evolver::evolve::{evolve, evolve_from, Termination};
use evolver::fitness::{check_match, score_fitness};
use evolver::reproduce::{crossover, mutate, random_individual};
use evolver::select::select_top_fraction;
use evolver::sort::sort_by_score;

#[test]
fn test_score_fitness() {
    for (value, target, expected_score, msg) in [
        ("AAA", "BBB", 3, "none equal"),
        ("ABA", "BBB", 2, "one equal"),
        ("ABB", "BBB", 1, "two equal"),
        ("BBB", "BBB", 0, "all equal"),
    ] {
        let score = score_fitness(&value.as_bytes().to_vec(), &target.as_bytes().to_vec());
        assert_eq!(expected_score, score, "{}", msg);
    }
}

#[test]
fn test_score_scenarios() {
    let score = |a: &str, b: &str| score_fitness(&a.as_bytes().to_vec(), &b.as_bytes().to_vec());
    assert_eq!(score("ABC", "ABD"), 1);
    assert_eq!(score("ABC", "XYZ"), 3);
    assert_eq!(score("ABC", "ABC"), 0);
}

#[test]
fn test_score_counts_missing_positions_as_mismatches() {
    // the individual is shorter than the target: the two uncovered positions count
    assert_eq!(score_fitness(&b"ABC".to_vec(), &b"ABCDE".to_vec()), 2);
    // the individual is longer: extra positions are ignored
    assert_eq!(score_fitness(&b"ABCDE".to_vec(), &b"ABC".to_vec()), 0);
    // empty target scores zero against anything
    assert_eq!(score_fitness(&b"XYZ".to_vec(), &b"".to_vec()), 0);
}

#[test]
fn test_check_match() {
    assert!(check_match(&b"ABC".to_vec(), &b"ABC".to_vec()));
    assert!(!check_match(&b"ABC".to_vec(), &b"ABD".to_vec()));
    assert!(check_match(&b"".to_vec(), &b"".to_vec()));
    // equal length is required: a longer individual is not a match
    assert!(!check_match(&b"ABCD".to_vec(), &b"ABC".to_vec()));
}

#[test]
fn test_select_top_fraction_size() {
    let pop: Vec<Vec<u8>> = (0u8..10).map(|i| vec![i, i]).collect();
    // one tenth of ten is one, and it is the first element
    let top = select_top_fraction(&pop, 1, 10);
    assert_eq!(top.len(), 1);
    assert_eq!(top[0], pop[0]);
    // half of ten is five, and it is the first five elements in order
    let half = select_top_fraction(&pop, 1, 2);
    assert_eq!(half.len(), 5);
    for i in 0..5 {
        assert_eq!(half[i], pop[i]);
    }
    // truncation toward zero: a tenth of five is zero
    let small: Vec<Vec<u8>> = (0u8..5).map(|i| vec![i]).collect();
    assert_eq!(select_top_fraction(&small, 1, 10).len(), 0);
}

#[test]
fn test_crossover_closure() {
    let a = b"AAAAAAAAAA".to_vec();
    let b = b"BBBBBBBBBB".to_vec();
    let mut rng = rand::thread_rng();
    for _ in 0..20 {
        let child = crossover(&a, &b, &mut rng);
        assert_eq!(child.len(), a.len());
        for (i, &c) in child.iter().enumerate() {
            assert!(c == a[i] || c == b[i]);
        }
    }
}

#[test]
fn test_mutate_alphabet_closure() {
    let genome = b"AB".to_vec();
    let value = b"ABABABABABABABAB".to_vec();
    let mut rng = rand::thread_rng();
    for _ in 0..20 {
        let mutated = mutate(&value, &genome, &mut rng);
        assert_eq!(mutated.len(), value.len());
        for &c in mutated.iter() {
            assert!(genome.contains(&c));
        }
    }
}

#[test]
fn test_random_individual_distinct() {
    let genome = b"ABCDEFG".to_vec();
    let mut rng = rand::thread_rng();
    for _ in 0..20 {
        let ind = random_individual(&genome, 5, &mut rng).unwrap();
        assert_eq!(ind.len(), 5);
        for (i, &c) in ind.iter().enumerate() {
            assert!(genome.contains(&c));
            for &d in ind.iter().skip(i + 1) {
                assert_ne!(c, d, "sampling without replacement repeated a symbol");
            }
        }
    }
}

#[test]
fn test_random_individual_rejects_short_genome() {
    let genome = b"AB".to_vec();
    let mut rng = rand::thread_rng();
    assert_eq!(
        random_individual(&genome, 5, &mut rng),
        Err(EvolveError::InvalidConfiguration)
    );
}

#[test]
fn test_evolve_rejects_invalid_configuration() {
    let mut rng = rand::thread_rng();
    // genome shorter than the target
    let r = evolve(&b"AB".to_vec(), &b"ABCDE".to_vec(), 10, 100, &mut rng);
    assert!(matches!(r, Err(EvolveError::InvalidConfiguration)));
    // population too small for a breeding pool
    let r = evolve(&b"ABCDE".to_vec(), &b"ABC".to_vec(), 1, 100, &mut rng);
    assert!(matches!(r, Err(EvolveError::InvalidConfiguration)));
}

#[test]
fn test_evolve_from_matches_at_generation_zero() {
    let genome = b"AB".to_vec();
    let target = b"AAA".to_vec();
    let seeded: Vec<Vec<u8>> = (0..4).map(|_| b"AAA".to_vec()).collect();
    let mut rng = rand::thread_rng();
    let outcome = evolve_from(seeded, &genome, &target, 100, &mut rng);
    assert_eq!(outcome.termination, Termination::Matched);
    assert_eq!(outcome.generations, 0);
    assert_eq!(outcome.report.len(), 1);
    assert_eq!(evolver::render::format(&outcome.report[0]), "AAA");
}

#[test]
fn test_evolve_limit_reached() {
    // a one-symbol alphabet can never produce the two-symbol target
    let genome = b"AC".to_vec();
    let target = b"BB".to_vec();
    let mut rng = rand::thread_rng();
    let outcome = evolve(&genome, &target, 4, 3, &mut rng).unwrap();
    assert_eq!(outcome.termination, Termination::LimitReached);
    assert_eq!(outcome.generations, 3);
    assert_eq!(outcome.report.len(), 3);
    for best in &outcome.report {
        assert_eq!(best.len(), 2);
        assert!(best.iter().all(|c| genome.contains(c)));
    }
}

#[test]
fn test_evolve_finds_trivial_target() {
    // with a two-symbol alphabet and a two-symbol target the search space is
    // tiny, so a match arrives well within the cap
    let genome = b"AB".to_vec();
    let target = b"AB".to_vec();
    let mut rng = rand::thread_rng();
    let outcome = evolve(&genome, &target, 20, 10_000, &mut rng).unwrap();
    assert!(outcome.generations <= 10_000);
    match outcome.termination {
        Termination::Matched => {
            assert_eq!(outcome.report.len(), outcome.generations + 1);
            assert_eq!(outcome.report.last().unwrap(), &target);
        }
        Termination::LimitReached => {
            assert_eq!(outcome.generations, 10_000);
        }
    }
}

#[test]
fn test_sort_by_score() {
    let target = b"AA".to_vec();
    let pop = vec![b"BB".to_vec(), b"AB".to_vec(), b"AA".to_vec()];
    let sorted = sort_by_score(pop, &target);
    assert_eq!(sorted, vec![b"AA".to_vec(), b"AB".to_vec(), b"BB".to_vec()]);
}

#[test]
fn test_format() {
    assert_eq!(evolver::render::format(&b"hello".to_vec()), "hello");
    assert_eq!(evolver::render::format(&b"".to_vec()), "");
    assert_eq!(evolver::render::format(&b"Rust is really really great".to_vec()), "Rust is really really great");
}
