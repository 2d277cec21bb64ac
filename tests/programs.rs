use spatula::interpreter::run;
use spatula::parser::parse;
use spatula::validator::validate;

fn cook(source: &str) -> String {
    let program = match parse(source) {
        Ok(p) => p,
        Err(_) => panic!("program does not parse"),
    };
    assert!(validate(&program).is_ok());
    let outcome = run(&program, &vec![], 1, 1_000_000);
    assert!(outcome.result.is_ok());
    outcome.output
}

#[test]
fn hello_world_stub() {
    let source = "Hi.\n\nIngredients.\n72 g h\n105 g i\n\nMethod.\nPut i into the mixing bowl. Put h into the mixing bowl. Liquefy contents of the mixing bowl. Pour contents of the mixing bowl into the baking dish.\n\nServes 1.\n";
    assert_eq!(cook(source), "Hi\n");
}

#[test]
fn arithmetic_prints_from_the_top() {
    // bowl 1 holds 7 then 10; a dish is printed from its top
    let source = "Sum.\n\nIngredients.\n7 g a\n3 g b\n\nMethod.\nPut a into the mixing bowl. Add b to the mixing bowl. Pour contents of the mixing bowl into the baking dish.\n\nServes 1.\n";
    assert_eq!(cook(source), "107\n");
}

#[test]
fn stir_rolls_through_the_parser() {
    let source = "Roll.\n\nIngredients.\n1 a\n2 b\n3 c\n4 d\n5 e\n\nMethod.\nPut a into mixing bowl. Put b into mixing bowl. Put c into mixing bowl. Put d into mixing bowl. Put e into mixing bowl. Stir for 2 minutes. Pour contents of the mixing bowl into the baking dish.\n\nServes 1.\n";
    // bottom to top 1 2 5 3 4, printed from the top
    assert_eq!(cook(source), "43521\n");
    let source = "Roll.\n\nIngredients.\n1 a\n2 b\n3 c\n4 d\n5 e\n\nMethod.\nPut a into mixing bowl. Put b into mixing bowl. Put c into mixing bowl. Put d into mixing bowl. Put e into mixing bowl. Stir for 6 minutes. Pour contents of the mixing bowl into the baking dish.\n\nServes 1.\n";
    assert_eq!(cook(source), "43215\n");
}

#[test]
fn set_aside_leaves_the_guard_alone() {
    let source = "Once.\n\nIngredients.\n2 guard\n\nMethod.\nBeat the guard. Put guard into mixing bowl. Set aside. Beat until beaten. Put guard into the 2nd mixing bowl. Pour contents of the mixing bowl into the baking dish. Pour contents of the 2nd mixing bowl into the 2nd baking dish.\n\nServes 2.\n";
    // bowl 1 is [2]; the guard is still 2
    assert_eq!(cook(source), "22\n");
}

#[test]
fn auxiliary_returns_its_first_bowl() {
    let source = "Main.\n\nIngredients.\n9 n\n\nMethod.\nPut n into mixing bowl. Serve with sub. Put n into the 2nd mixing bowl. Pour contents of the mixing bowl into the baking dish.\n\nServes 1.\n\nSub.\n\nIngredients.\n1 a\n2 b\n\nMethod.\nClean mixing bowl. Put a into mixing bowl. Put b into mixing bowl. Pour contents of the mixing bowl into the 3rd baking dish.\n";
    // main bowl 1 is [9, 1, 2]; the sub recipe's dish is discarded
    assert_eq!(cook(source), "219\n");
}

#[test]
fn refrigerate_with_hours_prints_first_dishes() {
    let source = "Cold.\n\nIngredients.\n65 ml a\n66 ml b\n\nMethod.\nPut a into mixing bowl. Put b into mixing bowl. Pour contents of the mixing bowl into the baking dish. Refrigerate for 1 hours. Put a into mixing bowl.\n\nServes 1.\n";
    assert_eq!(cook(source), "BA\n");
}

#[test]
fn auxiliary_changes_only_the_first_bowl() {
    let source = "Main.\n\nIngredients.\n1 a\n\nMethod.\nPut a into the 2nd mixing bowl. Pour contents of the 2nd mixing bowl into the 2nd baking dish. Serve with sub. Pour contents of the 2nd mixing bowl into the 3rd baking dish. Pour contents of the mixing bowl into the baking dish.\n\nServes 3.\n\nSub.\n\nIngredients.\n7 b\n\nMethod.\nClean the 2nd mixing bowl. Put b into the 2nd mixing bowl. Pour contents of the 2nd mixing bowl into the 2nd baking dish. Put b into the mixing bowl.\n";
    // bowl 1 gets the 7; bowl 2 and dish 2 keep the caller's 1
    assert_eq!(cook(source), "711\n");
}
