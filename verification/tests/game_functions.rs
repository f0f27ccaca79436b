use pattern_of_doom::game_functions::{
    build_sequence, complementary_bounds, factor_bounds, fibonacci, generate_sequence,
    operand_num_to_string, operation_total, round_sqrt, start_bounds, term_bounds,
};
use pattern_of_doom::models::Level;

fn rule_parts(rule: &str) -> (i32, String, i32) {
    let parts: Vec<&str> = rule.split(',').collect();
    assert_eq!(parts.len(), 3);
    (parts[0].parse().unwrap(), parts[1].to_string(), parts[2].parse().unwrap())
}

#[test]
fn fibonacci_values() {
    let expected = [0, 1, 1, 2, 3, 5, 8, 13, 21, 34, 55];
    for (n, want) in expected.iter().enumerate() {
        assert_eq!(fibonacci(n), *want);
    }
    assert_eq!(fibonacci(45), 1134903170);
}

#[test]
fn fibonacci_recurrence_holds() {
    for n in 0..44 {
        assert_eq!(fibonacci(n + 2), fibonacci(n) + fibonacci(n + 1));
    }
}

#[test]
fn operand_symbols() {
    assert_eq!(operand_num_to_string(1), "+");
    assert_eq!(operand_num_to_string(2), "-");
    assert_eq!(operand_num_to_string(3), "*");
    assert_eq!(operand_num_to_string(4), "/");
    assert_eq!(operand_num_to_string(5), "^");
    assert_eq!(operand_num_to_string(6), "\u{221a}");
    assert_eq!(operand_num_to_string(7), "Fibonacci");
    assert_eq!(operand_num_to_string(0), "?");
    assert_eq!(operand_num_to_string(8), "?");
    assert_eq!(operand_num_to_string(-3), "?");
}

#[test]
fn rounded_square_roots() {
    assert_eq!(round_sqrt(0), 0);
    assert_eq!(round_sqrt(1), 1);
    assert_eq!(round_sqrt(2), 1);
    assert_eq!(round_sqrt(3), 2);
    assert_eq!(round_sqrt(6), 2);
    assert_eq!(round_sqrt(7), 3);
    assert_eq!(round_sqrt(199), 14);
    assert_eq!(round_sqrt(i32::MAX as i64), 46341);
    for v in 0..5000i64 {
        assert_eq!(round_sqrt(v), (v as f64).sqrt().round() as i64);
    }
}

#[test]
fn easy_addition_pattern() {
    let (terms, rule) = build_sequence(Level::Easy, 5, 1, 3, &vec![1, 1, 1, 1]).unwrap();
    assert_eq!(terms, vec![8, 11, 14, 17]);
    assert_eq!(rule, "5,+,3");
}

#[test]
fn easy_subtraction_pattern() {
    let (terms, rule) = build_sequence(Level::Easy, 2, 2, 24, &vec![1, 1, 1, 1]).unwrap();
    assert_eq!(terms, vec![-22, -46, -70, -94]);
    assert_eq!(rule, "2,-,24");
}

#[test]
fn easy_multiplication_pattern() {
    let (terms, rule) = build_sequence(Level::Easy, 5, 3, 9, &vec![2, 3, 1, 2]).unwrap();
    assert_eq!(terms, vec![10, 30, 30, 60]);
    assert_eq!(rule, "5,*,9");
}

#[test]
fn easy_doubling_pattern() {
    let (terms, rule) = build_sequence(Level::Easy, 3, 4, 7, &vec![1, 1, 1, 1]).unwrap();
    assert_eq!(terms, vec![6, 12, 24, 48]);
    assert_eq!(rule, "3,/,7");
}

#[test]
fn medium_division_and_doubling() {
    let (terms, rule) = build_sequence(Level::Medium, 20, 4, 64, &vec![2, 3, 4, 2]).unwrap();
    assert_eq!(terms, vec![10, 3, 0, 0]);
    assert_eq!(rule, "20,/,64");
    let (terms, rule) = build_sequence(Level::Medium, 7, 5, 1, &vec![1, 1, 1, 1]).unwrap();
    assert_eq!(terms, vec![14, 28, 56, 112]);
    assert_eq!(rule, "7,^,1");
}

#[test]
fn hard_powers() {
    let (terms, rule) = build_sequence(Level::Hard, 10, 5, 2, &vec![1, 2, 1, 2]).unwrap();
    assert_eq!(terms, vec![10, 100, 100, 10000]);
    assert_eq!(rule, "10,^,2");
    assert!(build_sequence(Level::Hard, 49, 5, 2, &vec![2, 2, 2, 2]).is_none());
}

#[test]
fn hard_fibonacci_pattern() {
    let (terms, rule) = build_sequence(Level::Hard, 33, 6, 50, &vec![1, 1, 1, 1]).unwrap();
    assert_eq!(terms, vec![5, 8, 13, 21]);
    assert_eq!(rule, "33,\u{221a},50");
}

#[test]
fn impossible_patterns() {
    let (terms, _) = build_sequence(Level::Impossible, 199, 6, 5, &vec![1, 1, 1, 1]).unwrap();
    assert_eq!(terms, vec![14, 4, 2, 1]);
    let (terms, rule) = build_sequence(Level::Impossible, 60, 7, 149, &vec![1, 1, 1, 1]).unwrap();
    assert_eq!(terms, vec![21, 34, 55, 89]);
    assert_eq!(rule, "60,Fibonacci,149");
    let (terms, _) = build_sequence(Level::Impossible, 100, 4, 5, &vec![3, 3, 3, 3]).unwrap();
    assert_eq!(terms, vec![33, 11, 3, 1]);
    assert!(build_sequence(Level::Impossible, 199, 5, 5, &vec![2, 2, 2, 2]).is_none());
    let (terms, _) = build_sequence(Level::Impossible, 199, 5, 5, &vec![2, 2, 1, 1]).unwrap();
    assert_eq!(terms, vec![39601, 1568239201, 1568239201, 1568239201]);
}

#[test]
fn generated_easy_patterns_follow_their_rule() {
    for _ in 0..300 {
        let (terms, rule) = generate_sequence(&Level::Easy).unwrap();
        assert_eq!(terms.len(), 4);
        let (start, symbol, comp) = rule_parts(&rule);
        assert!((2..21).contains(&start));
        assert!((1..25).contains(&comp));
        match symbol.as_str() {
            "+" => assert_eq!(terms, (1..=4).map(|k| start + k * comp).collect::<Vec<i32>>()),
            "-" => assert_eq!(terms, (1..=4).map(|k| start - k * comp).collect::<Vec<i32>>()),
            "/" => assert_eq!(terms, (1..=4).map(|k| start << k).collect::<Vec<i32>>()),
            "*" => {
                let mut prev = start;
                for t in &terms {
                    assert!(*t == prev || *t == prev * 2 || *t == prev * 3);
                    prev = *t;
                }
            }
            other => panic!("unexpected symbol {}", other),
        }
    }
}

#[test]
fn generated_medium_patterns_always_come() {
    for _ in 0..300 {
        let (terms, rule) = generate_sequence(&Level::Medium).unwrap();
        assert_eq!(terms.len(), 4);
        let (start, symbol, comp) = rule_parts(&rule);
        assert!((6..21).contains(&start));
        assert!((1..65).contains(&comp));
        assert!(["+", "-", "*", "/", "^"].contains(&symbol.as_str()));
    }
}

#[test]
fn generated_hard_and_impossible_patterns() {
    for _ in 0..300 {
        if let Some((terms, rule)) = generate_sequence(&Level::Hard) {
            assert_eq!(terms.len(), 4);
            let (start, symbol, comp) = rule_parts(&rule);
            assert!((10..50).contains(&start));
            assert!((2..100).contains(&comp));
            if symbol == "\u{221a}" {
                assert_eq!(terms, vec![5, 8, 13, 21]);
            }
        }
        if let Some((terms, rule)) = generate_sequence(&Level::Impossible) {
            assert_eq!(terms.len(), 4);
            let (start, symbol, comp) = rule_parts(&rule);
            assert!((50..200).contains(&start));
            assert!((5..150).contains(&comp));
            if symbol == "Fibonacci" {
                assert_eq!(terms, vec![21, 34, 55, 89]);
            }
        }
    }
}

#[test]
fn draw_ranges_of_each_level() {
    assert_eq!(start_bounds(Level::Easy), (2, 21));
    assert_eq!(start_bounds(Level::Medium), (6, 21));
    assert_eq!(start_bounds(Level::Hard), (10, 50));
    assert_eq!(start_bounds(Level::Impossible), (50, 200));
    assert_eq!(operation_total(Level::Easy), 4);
    assert_eq!(operation_total(Level::Medium), 5);
    assert_eq!(operation_total(Level::Hard), 6);
    assert_eq!(operation_total(Level::Impossible), 7);
    assert_eq!(complementary_bounds(Level::Easy), (1, 25));
    assert_eq!(complementary_bounds(Level::Medium), (1, 65));
    assert_eq!(complementary_bounds(Level::Hard), (2, 100));
    assert_eq!(complementary_bounds(Level::Impossible), (5, 150));
    assert_eq!(factor_bounds(Level::Easy, 3), Some((1, 4)));
    assert_eq!(factor_bounds(Level::Easy, 4), None);
    assert_eq!(factor_bounds(Level::Medium, 4), Some((2, 5)));
    assert_eq!(factor_bounds(Level::Hard, 3), Some((2, 7)));
    assert_eq!(factor_bounds(Level::Hard, 5), Some((1, 3)));
    assert_eq!(factor_bounds(Level::Hard, 6), None);
    assert_eq!(factor_bounds(Level::Impossible, 4), Some((2, 10)));
    assert_eq!(factor_bounds(Level::Impossible, 7), None);
    assert_eq!(term_bounds(), (6, 12));
}
