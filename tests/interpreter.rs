use spatula::interpreter::{eval_instruction, run, Kitchen, Session};
use spatula::kitchen::IngredientAmount;
use spatula::parser::ast::{ChefRecipe, IngredientKind, Span, Spanned};
use spatula::parser::parse;
use spatula::parser::stage_two_ast::{ChefProgram, Instruction};
use spatula::semantics::{Fault, RuntimeError};
use spatula::validator::validate;

const FUEL: u64 = 1_000_000;

fn empty_program() -> ChefProgram {
    ChefProgram {
        main: ChefRecipe {
            title: String::new(),
            comments: String::new(),
            ingredients: vec![],
            cooking_time: None,
            oven_temperature: None,
            instructions: vec![],
            serves: None,
        },
        auxilary: vec![],
    }
}

fn apply_stir(ingredients: &[usize], minutes: usize) -> Vec<usize> {
    let program = empty_program();
    let bowl_index = 0;
    let bowl = ingredients
        .iter()
        .map(|i| IngredientAmount::new(*i, IngredientKind::Dry))
        .collect::<Vec<_>>();
    let mut kitchen = Kitchen {
        ingredients: vec![],
        bowls: vec![(bowl_index, bowl)],
        dishes: vec![],
    };
    let mut session = Session { cursor: 0, output: String::new(), seed: 1 };
    eval_instruction(
        &program,
        &vec![],
        &mut kitchen,
        &mut session,
        &Spanned(Instruction::Stir(bowl_index, minutes), Span::new(0, 0)),
        FUEL,
    )
    .unwrap();
    kitchen.bowls[0].1.iter().map(|v| v.amount()).collect()
}

#[test]
fn test_stir_contents() {
    assert_eq!(apply_stir(&[1, 2, 3, 4, 5], 0), vec![1, 2, 3, 4, 5]);
    assert_eq!(apply_stir(&[1, 2, 3, 4, 5], 1), vec![1, 2, 3, 5, 4]);
    assert_eq!(apply_stir(&[1, 2, 3, 4, 5], 2), vec![1, 2, 5, 3, 4]);
    assert_eq!(apply_stir(&[1, 2, 3, 4, 5], 3), vec![1, 5, 2, 3, 4]);
    assert_eq!(apply_stir(&[1, 2, 3, 4, 5], 4), vec![5, 1, 2, 3, 4]);
    assert_eq!(apply_stir(&[1, 2, 3, 4, 5], 5), vec![5, 1, 2, 3, 4]);
    assert_eq!(apply_stir(&[1, 2, 3, 4, 5], 6), vec![5, 1, 2, 3, 4]);
}

/// Parses, checks and runs a program; the output and the result.
fn cook(source: &str, input: &[&str]) -> (String, Result<(), RuntimeError>) {
    let program = match parse(source) {
        Ok(p) => p,
        Err(_) => panic!("program does not parse"),
    };
    assert!(validate(&program).is_ok());
    let lines = input.iter().map(|l| l.to_string()).collect::<Vec<_>>();
    let outcome = run(&program, &lines, 7, FUEL);
    (outcome.output, outcome.result)
}

fn fault_of(source: &str, input: &[&str]) -> Fault {
    match cook(source, input).1 {
        Err(e) => e.fault,
        Ok(()) => panic!("expected a run-time error"),
    }
}

#[test]
fn take_reads_numbers_and_skips_other_lines() {
    let source = "Echo.\n\nIngredients.\nx\n\nMethod.\nTake x from refrigerator. Put x into mixing bowl. Take x from the refrigerator. Put x into mixing bowl. Pour contents of the mixing bowl into the baking dish.\n\nServes 1.\n";
    let (out, r) = cook(source, &["12", "not a number", "  34  "]);
    assert!(r.is_ok());
    assert_eq!(out, "3412\n");
}

#[test]
fn take_at_end_of_input_fails() {
    let source = "Echo.\n\nIngredients.\nx\n\nMethod.\nTake x from refrigerator.\n";
    assert_eq!(fault_of(source, &["nope"]), Fault::EndOfInput);
}

#[test]
fn reading_an_unset_ingredient_fails() {
    let source = "Soup.\n\nIngredients.\nx\n\nMethod.\nPut x into mixing bowl.\n";
    assert_eq!(fault_of(source, &[]), Fault::Uninitialised);
}

#[test]
fn folding_from_an_empty_bowl_fails() {
    let source = "Soup.\n\nIngredients.\n1 x\n\nMethod.\nFold x into mixing bowl.\n";
    assert_eq!(fault_of(source, &[]), Fault::EmptyBowl);
}

#[test]
fn dividing_by_zero_fails() {
    let source = "Soup.\n\nIngredients.\n4 x\n0 z\n\nMethod.\nPut x into mixing bowl. Divide z into mixing bowl.\n";
    assert_eq!(fault_of(source, &[]), Fault::DivisionByZero);
}

#[test]
fn going_below_zero_fails() {
    let source = "Soup.\n\nIngredients.\n4 x\n5 y\n\nMethod.\nPut x into mixing bowl. Remove y from mixing bowl.\n";
    assert_eq!(fault_of(source, &[]), Fault::Overflow);
}

#[test]
fn set_aside_outside_a_loop_fails() {
    let source = "Soup.\n\nIngredients.\n4 x\n\nMethod.\nSet aside.\n";
    assert_eq!(fault_of(source, &[]), Fault::SetAsideOutsideLoop);
}

#[test]
fn endless_loop_runs_out_of_fuel() {
    let source = "Soup.\n\nIngredients.\n1 x\n\nMethod.\nStir the x. Put x into mixing bowl. Add x. Fold x into mixing bowl. Stir until stirred.\n";
    let program = parse(source).ok().unwrap();
    let outcome = run(&program, &vec![], 7, 50);
    match outcome.result {
        Err(e) => assert_eq!(e.fault, Fault::OutOfFuel),
        Ok(()) => panic!("expected to run out of fuel"),
    }
}

#[test]
fn missing_recipe_and_ingredient_fail_at_run_time_too() {
    let source = "Soup.\n\nIngredients.\n1 x\n\nMethod.\nServe with salad.\n";
    let program = parse(source).ok().unwrap();
    assert!(validate(&program).is_err());
    let outcome = run(&program, &vec![], 7, FUEL);
    assert_eq!(outcome.result.unwrap_err().fault, Fault::UnknownRecipe);

    let source = "Soup.\n\nIngredients.\n1 x\n\nMethod.\nPut y into mixing bowl.\n";
    let program = parse(source).ok().unwrap();
    assert!(validate(&program).is_err());
    let outcome = run(&program, &vec![], 7, FUEL);
    assert_eq!(outcome.result.unwrap_err().fault, Fault::UnknownIngredient);
}

#[test]
fn arithmetic_gives_exact_values() {
    let source = "Sums.\n\nIngredients.\n12 x\n5 y\n\nMethod.\nPut x into mixing bowl. Add y. Combine y. Remove y. Divide y. Pour contents of the mixing bowl into the baking dish.\n\nServes 1.\n";
    let (out, r) = cook(source, &[]);
    assert!(r.is_ok());
    // bowl: 12, 17, 85, 80, 16; printed from the top
    assert_eq!(out, "1680851712\n");
}

#[test]
fn add_dry_ingredients_replaces_the_bowl_with_the_dry_sum() {
    let source = "Dry.\n\nIngredients.\n3 g a\n4 ml b\n5 c\n\nMethod.\nPut b into mixing bowl. Add dry ingredients. Pour contents of the mixing bowl into the baking dish.\n\nServes 1.\n";
    let (out, r) = cook(source, &[]);
    assert!(r.is_ok());
    assert_eq!(out, "8\n");
}

#[test]
fn wet_values_print_as_characters() {
    let source = "Letters.\n\nIngredients.\n65 ml a\n1114177 ml b\n55296 ml c\n\nMethod.\nPut c into mixing bowl. Put b into mixing bowl. Put a into mixing bowl. Pour contents of the mixing bowl into the baking dish.\n\nServes 1.\n";
    let (out, r) = cook(source, &[]);
    assert!(r.is_ok());
    // 1114177 mod 0x110000 is 65; 55296 is a surrogate
    assert_eq!(out, "AA\u{FFFD}\n");
}

#[test]
fn liquefy_changes_the_ingredient_and_not_the_bowl() {
    let source = "Snap.\n\nIngredients.\n66 g b\n\nMethod.\nPut b into mixing bowl. Liquefy b. Put b into mixing bowl. Pour contents of the mixing bowl into the baking dish.\n\nServes 1.\n";
    let (out, r) = cook(source, &[]);
    assert!(r.is_ok());
    assert_eq!(out, "B66\n");
}

#[test]
fn mix_keeps_the_values() {
    let source = "Shake.\n\nIngredients.\n1 a\n2 b\n3 c\n4 d\n\nMethod.\nPut a into mixing bowl. Put b into mixing bowl. Put c into mixing bowl. Put d into mixing bowl. Mix well. Pour contents of the mixing bowl into the baking dish.\n\nServes 1.\n";
    let (out, r) = cook(source, &[]);
    assert!(r.is_ok());
    let mut digits: Vec<char> = out.trim_end().chars().collect();
    digits.sort();
    assert_eq!(digits, vec!['1', '2', '3', '4']);
}

#[test]
fn serve_with_finds_recipes_in_any_case() {
    let source = "Main.\n\nIngredients.\n1 a\n\nMethod.\nServe with SIDE DISH. Pour contents of the mixing bowl into the baking dish.\n\nServes 1.\n\nSide Dish.\n\nIngredients.\n7 b\n\nMethod.\nPut b into mixing bowl.\n";
    let (out, r) = cook(source, &[]);
    assert!(r.is_ok());
    assert_eq!(out, "7\n");
}

#[test]
fn loop_runs_until_the_guard_is_zero() {
    let source = "Count.\n\nIngredients.\n3 n\n\nMethod.\nBeat the n. Put n into mixing bowl. Beat until beaten. Pour contents of the mixing bowl into the baking dish.\n\nServes 1.\n";
    let (out, r) = cook(source, &[]);
    assert!(r.is_ok());
    assert_eq!(out, "123\n");
}

#[test]
fn several_dishes_print_in_order() {
    let source = "Two.\n\nIngredients.\n1 a\n2 b\n\nMethod.\nPut a into mixing bowl. Put b into the 2nd mixing bowl. Pour contents of the mixing bowl into the baking dish. Pour contents of the 2nd mixing bowl into the 2nd baking dish.\n\nServes 2.\n";
    let (out, r) = cook(source, &[]);
    assert!(r.is_ok());
    assert_eq!(out, "12\n");
}
