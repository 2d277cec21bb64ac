use spatula::parser::parse;
use spatula::validator::validate;

#[test]
fn valid_program_passes() {
    let source = "Main.\n\nIngredients.\n1 Flour\n\nMethod.\nPut flour into mixing bowl. Serve with Sauce.\n\nSauce.\n\nIngredients.\n2 sugar\n\nMethod.\nBeat the sugar. Put SUGAR into mixing bowl. Beat until beaten.\n";
    let program = parse(source).ok().unwrap();
    assert!(validate(&program).is_ok());
}

#[test]
fn unknown_recipe_is_reported() {
    let source = "Main.\n\nIngredients.\n1 flour\n\nMethod.\nServe with gravy.\n";
    let program = parse(source).ok().unwrap();
    let err = validate(&program).unwrap_err();
    assert_eq!(err.message, "Recipe `gravy` not found. There are no auxiliary recipes");
}

#[test]
fn unknown_ingredient_inside_a_loop_is_reported() {
    let source = "Main.\n\nIngredients.\n1 flour\n\nMethod.\nBeat the flour. Put salt into mixing bowl. Beat until beaten.\n";
    let program = parse(source).ok().unwrap();
    let err = validate(&program).unwrap_err();
    assert_eq!(err.message, "Ingredient `salt` not found");
}

#[test]
fn later_auxiliary_of_the_same_title_wins() {
    let source = "Main.\n\nIngredients.\n1 flour\n\nMethod.\nServe with sauce.\n\nSauce.\n\nIngredients.\n1 a\n\nMethod.\nPut a into mixing bowl.\n\nSAUCE.\n\nIngredients.\n1 b\n\nMethod.\nPut b into mixing bowl.\n";
    let program = parse(source).ok().unwrap();
    assert_eq!(program.auxilary.len(), 1);
    assert_eq!(program.auxilary[0].0, "sauce");
    assert_eq!(program.auxilary[0].1.title, "SAUCE");
}

#[test]
fn unknown_recipe_lists_the_available_ones() {
    let source = "Main.\n\nIngredients.\n1 flour\n\nMethod.\nServe with gravy.\n\nSauce.\n\nIngredients.\n1 a\n\nMethod.\nPut a into mixing bowl.\n\nSoup.\n\nIngredients.\n1 b\n\nMethod.\nPut b into mixing bowl.\n";
    let program = parse(source).ok().unwrap();
    let err = validate(&program).unwrap_err();
    assert_eq!(err.message, "Recipe `gravy` not found. Available recipes: sauce, soup");
}

#[test]
fn reference_errors_carry_the_instruction_span() {
    let source = "Main.\n\nIngredients.\n1 flour\n\nMethod.\nPut flour into mixing bowl. Serve with gravy.\n";
    let program = parse(source).ok().unwrap();
    let err = validate(&program).unwrap_err();
    let chars: Vec<char> = source.chars().collect();
    let text: String = chars[err.span.start..err.span.end].iter().collect();
    assert_eq!(text, "Serve with gravy");
}

#[test]
fn recipe_errors_come_before_ingredient_errors() {
    let source = "Main.\n\nIngredients.\n1 flour\n\nMethod.\nPut salt into mixing bowl. Serve with gravy.\n";
    let program = parse(source).ok().unwrap();
    let err = validate(&program).unwrap_err();
    assert!(err.message.starts_with("Recipe `gravy` not found"));
}

#[test]
fn titles_are_trimmed_before_keying() {
    let source = "Main.\n\nIngredients.\n1 flour\n\nMethod.\nServe with sauce.\n\n  Sauce  .\n\nIngredients.\n1 a\n\nMethod.\nPut a into mixing bowl.\n";
    let program = parse(source).ok().unwrap();
    assert_eq!(program.auxilary[0].0, "sauce");
    assert!(validate(&program).is_ok());
}
