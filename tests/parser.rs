use spatula::parser::ast::{Span, Spanned, Verb};
use spatula::parser::errors::ParseError;
use spatula::parser::stage_one::{ingredient, instruction, parser};
use spatula::parser::stage_one_ast::{
    CookingIngredient, CookingInstruction, CookingMeasure, MeasureType, MeasureUnit,
};
use spatula::parser::stage_two::parse_instructions;
use spatula::parser::stage_two_ast::Instruction;

fn read(input: &str) -> Spanned<CookingInstruction> {
    match instruction(input) {
        Ok(i) => i,
        Err(_) => panic!("Failed to parse input"),
    }
}

fn s(text: &str) -> String {
    text.to_string()
}

#[test]
fn test_ingredient() {
    let input = "1 heaped tsp flour\n";
    let result = ingredient(input).unwrap();
    assert_eq!(
        result.value(),
        &CookingIngredient {
            initial_value: Some(1),
            measure: Some(CookingMeasure::new(
                MeasureUnit::Teaspoons,
                Some(MeasureType::Heaped)
            )),
            name: s("flour")
        }
    );
}

#[test]
fn test_take_instruction() {
    let result = read("Take boiled flour from refrigerator");
    assert_eq!(result.value(), &CookingInstruction::Take(s("boiled flour")));
}

#[test]
fn test_put_instruction() {
    let result = read("Put galvanized steel beams into mixing bowl");
    assert_eq!(
        result.value(),
        &CookingInstruction::Put(s("galvanized steel beams"), 0)
    );

    let result = read("Put galvanized steel beams into the 3rd mixing bowl");
    assert_eq!(
        result.value(),
        &CookingInstruction::Put(s("galvanized steel beams"), 3)
    );
}

#[test]
fn test_fold_instruction() {
    let result = read("Fold flour into mixing bowl");
    assert_eq!(result.value(), &CookingInstruction::Fold(s("flour"), 0));

    let result = read("Fold flour into the 3rd mixing bowl");
    assert_eq!(result.value(), &CookingInstruction::Fold(s("flour"), 3));
}

#[test]
fn test_add_instruction() {
    let result = read("Add flour");
    assert_eq!(result.value(), &CookingInstruction::Add(s("flour"), 0));

    let result = read("Add flour to the 3rd mixing bowl");
    assert_eq!(result.value(), &CookingInstruction::Add(s("flour"), 3));
}

#[test]
fn test_remove_instruction() {
    let result = read("Remove flour");
    assert_eq!(result.value(), &CookingInstruction::Remove(s("flour"), 0));

    let result = read("Remove flour from the 3rd mixing bowl");
    assert_eq!(result.value(), &CookingInstruction::Remove(s("flour"), 3));
}

#[test]
fn test_combine_instruction() {
    let result = read("Combine flour");
    assert_eq!(result.value(), &CookingInstruction::Combine(s("flour"), 0));

    let result = read("Combine flour into the 3rd mixing bowl");
    assert_eq!(result.value(), &CookingInstruction::Combine(s("flour"), 3));
}

#[test]
fn test_divide_instruction() {
    let result = read("Divide flour");
    assert_eq!(result.value(), &CookingInstruction::Divide(s("flour"), 0));

    let result = read("Divide flour into the 3rd mixing bowl");
    assert_eq!(result.value(), &CookingInstruction::Divide(s("flour"), 3));
}

#[test]
fn test_add_dry_ingredients_instruction() {
    let result = read("Add dry ingredients");
    assert_eq!(result.value(), &CookingInstruction::AddDryIngredients(0));

    let result = read("Add dry ingredients to the 3rd mixing bowl");
    assert_eq!(result.value(), &CookingInstruction::AddDryIngredients(3));
}

#[test]
fn test_liqify_instruction() {
    let result = read("Liquefy contents of the 3rd mixing bowl");
    assert_eq!(result.value(), &CookingInstruction::LiquefyContents(3));

    let result = read("Liquefy contents of the mixing bowl");
    assert_eq!(result.value(), &CookingInstruction::LiquefyContents(0));

    let result = read("Liquify contents of the 3rd mixing bowl");
    assert_eq!(result.value(), &CookingInstruction::LiquefyContents(3));

    let result = read("Liquify contents of the mixing bowl");
    assert_eq!(result.value(), &CookingInstruction::LiquefyContents(0));
}

#[test]
fn test_liqify_ingredient_instruction() {
    let result = read("Liquefy flour");
    assert_eq!(result.value(), &CookingInstruction::Liquefy(s("flour")));

    let result = read("Liquify flour");
    assert_eq!(result.value(), &CookingInstruction::Liquefy(s("flour")));
}

#[test]
fn test_stir_bowl_instruction() {
    let result = read("Stir the 3rd mixing bowl for 5 minutes");
    assert_eq!(result.value(), &CookingInstruction::Stir(3, 5));

    let result = read("Stir the mixing bowl for 5 minutes");
    assert_eq!(result.value(), &CookingInstruction::Stir(0, 5));

    let result = read("Stir for 5 minutes");
    assert_eq!(result.value(), &CookingInstruction::Stir(0, 5));
}

#[test]
fn test_stir_ingredient_instruction() {
    let result = read("Stir flour into the 3rd mixing bowl");
    assert_eq!(
        result.value(),
        &CookingInstruction::StirIngredient(s("flour"), 3)
    );

    let result = read("Stir flour into the mixing bowl");
    assert_eq!(
        result.value(),
        &CookingInstruction::StirIngredient(s("flour"), 0)
    );
}

#[test]
fn test_mix_instruction() {
    let result = read("Mix well");
    assert_eq!(result.value(), &CookingInstruction::Mix(0));

    let result = read("Mix the mixing bowl well");
    assert_eq!(result.value(), &CookingInstruction::Mix(0));

    let result = read("Mix the 3rd mixing bowl well");
    assert_eq!(result.value(), &CookingInstruction::Mix(3));
}

#[test]
fn test_clean_instruction() {
    let result = read("Clean the 3rd mixing bowl");
    assert_eq!(result.value(), &CookingInstruction::Clean(3));

    let result = read("Clean the mixing bowl");
    assert_eq!(result.value(), &CookingInstruction::Clean(0));

    let result = read("Clean mixing bowl");
    assert_eq!(result.value(), &CookingInstruction::Clean(0));
}

#[test]
fn test_pour_instruction() {
    let result = read("Pour contents of the 3rd mixing bowl into the 5th baking dish");
    assert_eq!(result.value(), &CookingInstruction::Pour(3, 5));

    let result = read("Pour contents of the mixing bowl into the 5th baking dish");
    assert_eq!(result.value(), &CookingInstruction::Pour(0, 5));

    let result = read("Pour contents of the 3rd mixing bowl into the baking dish");
    assert_eq!(result.value(), &CookingInstruction::Pour(3, 0));

    let result = read("Pour contents of the mixing bowl into the baking dish");
    assert_eq!(result.value(), &CookingInstruction::Pour(0, 0));
}

#[test]
fn test_verb_until_instruction() {
    let result = read("Whisk the flour until whisked");
    assert_eq!(
        result.value(),
        &CookingInstruction::VerbUntil(Some(s("flour")), Verb(s("whisked")))
    );

    let result = read("Whisk until whisked");
    assert_eq!(
        result.value(),
        &CookingInstruction::VerbUntil(None, Verb(s("whisked")))
    );

    let result = read("Heat white sugar until melted");
    assert_eq!(
        result.value(),
        &CookingInstruction::VerbUntil(Some(s("white sugar")), Verb(s("melted")))
    );
}

#[test]
fn test_verb_instruction() {
    let result = read("Whisk the flour");
    assert_eq!(
        result.value(),
        &CookingInstruction::Verb(Verb(s("Whisk")), s("flour"))
    );

    let result = read("Whisk caramelized camels");
    assert_eq!(
        result.value(),
        &CookingInstruction::Verb(Verb(s("Whisk")), s("caramelized camels"))
    );
}

#[test]
fn test_set_aside_instruction() {
    let result = read("Set aside");
    assert_eq!(result.value(), &CookingInstruction::SetAside);
}

#[test]
fn test_serve_with_instruction() {
    let result = read("Serve with coffee");
    assert_eq!(result.value(), &CookingInstruction::ServeWith(s("coffee")));

    let result = read("Serve with Carameled Apple");
    assert_eq!(
        result.value(),
        &CookingInstruction::ServeWith(s("Carameled Apple"))
    );
}

#[test]
fn test_refrigerate_instruction() {
    let result = read("Refrigerate");
    assert_eq!(result.value(), &CookingInstruction::Refrigerate(None));

    let result = read("Refrigerate for 2 hours");
    assert_eq!(result.value(), &CookingInstruction::Refrigerate(Some(2)));
}

#[test]
fn test_serves_instruction() {
    let result = read("Serves 5");
    assert_eq!(result.value(), &CookingInstruction::Serves(5));
}

#[test]
fn test_parse_minimal_recipe() {
    let input = r#"
Quine Relay Coffee.

Ingredients.
10 g caffeine 10

Method.
Serve with Quine Relay Coffee.
        "#;
    assert!(parser(input).is_ok());
}

#[test]
fn test_problematic_recipe() {
    let input = r#"
Caramel Sauce.

Ingredients.
1 cup white sugar
1 cup brown sugar
1 vanilla bean

Method.
Put vanilla bean into mixing bowl. Refrigerate. Heat white sugar until melted.
        "#
    .trim();
    assert!(parser(input).is_ok());
}

#[test]
fn test_with_cooking_time_and_stuff() {
    let input = r#"
Caramel Sauce.

Ingredients.
1 cup white sugar
1 cup brown sugar
1 vanilla bean

Cooking time: 1 hour.
Pre-heat oven to 200 degrees Celcius.

Method.
Put vanilla bean into mixing bowl. Refrigerate. Heat white sugar until melted.
        "#
    .trim();
    assert!(parser(input).is_ok());
}

#[test]
fn test_with_serves_instruction_in_list() {
    let input = r#"
Moose gulasch.

Ingredients.
1 moose

Method.
Eat moose. Serves 1.

Serves 1.
"#
    .trim();
    let recipe = parser(input).unwrap();
    let recipe = recipe.first().unwrap();
    let instructions = recipe
        .instructions
        .iter()
        .map(Spanned::value)
        .collect::<Vec<_>>();
    assert_eq!(
        instructions,
        vec![
            &CookingInstruction::Verb(Verb(s("Eat")), s("moose")),
            &CookingInstruction::Serves(1)
        ]
    );
}

#[test]
fn recipe_parts_are_read() {
    let input = "Caramel Sauce.\n\nSweet.\n\nIngredients.\n1 cup white sugar\n2 ml milk\n\nCooking time: 1 hour.\nPre-heat oven to 200 degrees Celcius.\n\nMethod.\nPut milk into the 2nd mixing bowl.\n\nServes 2.\n";
    let recipes = parser(input).unwrap();
    assert_eq!(recipes.len(), 1);
    let r = &recipes[0];
    assert_eq!(r.title, "Caramel Sauce");
    assert_eq!(r.comments, "Sweet.");
    assert_eq!(r.cooking_time, Some(1));
    assert_eq!(r.oven_temperature, Some(200));
    assert_eq!(r.ingredients.len(), 2);
    assert_eq!(r.ingredients[1].value().name, "milk");
    assert_eq!(
        r.ingredients[1].value().measure,
        Some(CookingMeasure::new(MeasureUnit::Milliliters, None))
    );
    assert_eq!(
        r.instructions[0].value(),
        &CookingInstruction::Put(s("milk"), 2)
    );
    assert_eq!(r.serves.as_ref().map(|s| s.0), Some(2));
}

#[test]
fn first_ordinal_is_the_default_bowl() {
    let result = read("Put flour into the 1st mixing bowl");
    assert_eq!(result.value(), &CookingInstruction::Put(s("flour"), 0));
}

#[test]
fn span_of_a_sentence_is_its_text() {
    let input = "Soup.\n\nIngredients.\n1 g salt\n\nMethod.\nPut salt into the mixing bowl. Clean the mixing bowl.\n";
    let recipes = parser(input).unwrap();
    let spans: Vec<Span> = recipes[0].instructions.iter().map(|i| i.span()).collect();
    let chars: Vec<char> = input.chars().collect();
    let first: String = chars[spans[0].start..spans[0].end].iter().collect();
    let second: String = chars[spans[1].start..spans[1].end].iter().collect();
    assert_eq!(first, "Put salt into the mixing bowl");
    assert_eq!(second, "Clean the mixing bowl");
}

#[test]
fn unknown_sentence_is_a_first_stage_error() {
    assert!(matches!(instruction("Bake the cake into the oven"), Err(ParseError::FirstStage(_, _))));
    let input = "Soup.\n\nIngredients.\n1 g salt\n\nMethod.\nStir salt into the oven.\n";
    assert!(matches!(parser(input), Err(ParseError::FirstStage(_, _))));
}

#[test]
fn missing_method_is_an_error() {
    let input = "Soup.\n\nIngredients.\n1 g salt\n";
    assert!(parser(input).is_err());
}

fn sp(n: usize) -> Span {
    Span::new(n, n + 1)
}

#[test]
fn loops_are_nested_and_flatten_back() {
    let flat = vec![
        Spanned(CookingInstruction::Verb(Verb(s("Heat")), s("sugar")), sp(0)),
        Spanned(CookingInstruction::Put(s("sugar"), 0), sp(1)),
        Spanned(CookingInstruction::Verb(Verb(s("Stir")), s("milk")), sp(2)),
        Spanned(CookingInstruction::SetAside, sp(3)),
        Spanned(CookingInstruction::VerbUntil(None, Verb(s("stirred"))), sp(4)),
        Spanned(CookingInstruction::VerbUntil(Some(s("sugar")), Verb(s("heated"))), sp(5)),
        Spanned(CookingInstruction::Serves(1), sp(6)),
    ];
    let tree = parse_instructions(flat).unwrap();
    assert_eq!(tree.len(), 2);
    assert_eq!(tree[0].1, Span::new(0, 6));
    match &tree[0].0 {
        Instruction::VerbLoop(outer) => {
            assert_eq!(outer.verb, Verb(s("Heat")));
            assert_eq!(outer.ingredient, "sugar");
            assert_eq!(outer.until_verb, Verb(s("heated")));
            assert_eq!(outer.until_ingredient, Some(s("sugar")));
            assert_eq!(outer.instructions.len(), 2);
            assert_eq!(outer.instructions[0].0, Instruction::Put(s("sugar"), 0));
            match &outer.instructions[1].0 {
                Instruction::VerbLoop(inner) => {
                    assert_eq!(inner.ingredient, "milk");
                    assert_eq!(inner.instructions.len(), 1);
                    assert_eq!(inner.instructions[0].0, Instruction::SetAside);
                }
                _ => panic!("expected an inner loop"),
            }
        }
        _ => panic!("expected a loop"),
    }
    assert_eq!(tree[1].0, Instruction::Serves(1));
}

#[test]
fn unmatched_until_is_a_second_stage_error() {
    let flat = vec![Spanned(CookingInstruction::VerbUntil(None, Verb(s("heated"))), sp(7))];
    match parse_instructions(flat) {
        Err(ParseError::SecondStage(_, span)) => assert_eq!(span, sp(7)),
        _ => panic!("expected an error"),
    }
}

#[test]
fn unterminated_loop_is_a_second_stage_error() {
    let flat = vec![
        Spanned(CookingInstruction::Verb(Verb(s("Heat")), s("sugar")), sp(2)),
        Spanned(CookingInstruction::SetAside, sp(3)),
    ];
    match parse_instructions(flat) {
        Err(ParseError::SecondStage(_, span)) => assert_eq!(span, sp(2)),
        _ => panic!("expected an error"),
    }
}

#[test]
fn unterminated_loop_reports_the_innermost_open_loop() {
    let flat = vec![
        Spanned(CookingInstruction::Verb(Verb(s("Heat")), s("sugar")), sp(2)),
        Spanned(CookingInstruction::Verb(Verb(s("Stir")), s("milk")), sp(4)),
        Spanned(CookingInstruction::Verb(Verb(s("Beat")), s("egg")), sp(6)),
        Spanned(CookingInstruction::VerbUntil(None, Verb(s("beaten"))), sp(8)),
    ];
    match parse_instructions(flat) {
        Err(ParseError::SecondStage(message, span)) => {
            assert_eq!(span, sp(4));
            assert_eq!(message, "unterminated loop: the recipe ends inside it");
        }
        _ => panic!("expected an error"),
    }
}
