use goose_agent::json::{as_string, string_member, JsonText, JsonTexts};
use goose_agent::recipe::{
    filler, keep_nonempty, parse_recipe, recipe_from_json, recipe_from_text, strip_lines,
    RecipeError, RecipeText,
};

fn recipe(instructions: &str, activities: &[&str]) -> RecipeText {
    RecipeText {
        instructions: instructions.to_string(),
        activities: activities.iter().map(|a| a.to_string()).collect(),
    }
}

#[test]
fn a_recipe_is_read_from_json() {
    let content = "{\"instructions\": \"Do the thing\", \"activities\": [\"first\", \"second\"], \"extra\": 1}";
    assert_eq!(parse_recipe(content), Ok(recipe("Do the thing", &["first", "second"])));
    assert_eq!(
        parse_recipe("  \n{\"activities\": [], \"instructions\": \"\"}\n "),
        Ok(recipe("", &[]))
    );
}

#[test]
fn a_recipe_is_read_from_a_fenced_block() {
    let content = "Here you go:\n```json\n{\"instructions\": \"Do it\", \"activities\": [\"a\"]}\n```\nEnjoy.";
    assert_eq!(parse_recipe(content), Ok(recipe("Do it", &["a"])));
    let content = "```\n  {\"instructions\": \"x\",\n \"activities\": [\"a\", \"b\"]}\n\n```";
    assert_eq!(parse_recipe(content), Ok(recipe("x", &["a", "b"])));
}

#[test]
fn only_the_first_fenced_block_counts() {
    let content = "```\n{\"instructions\": \"one\", \"activities\": []}\n```\n```\n{\"instructions\": \"two\", \"activities\": []}\n```";
    assert_eq!(parse_recipe(content), Ok(recipe("one", &[])));
}

#[test]
fn each_fault_of_the_json_has_its_error() {
    assert_eq!(parse_recipe("{\"activities\": []}"), Err(RecipeError::MissingInstructions));
    assert_eq!(parse_recipe("[1, 2]"), Err(RecipeError::MissingInstructions));
    assert_eq!(parse_recipe("17"), Err(RecipeError::MissingInstructions));
    assert_eq!(
        parse_recipe("{\"instructions\": 5, \"activities\": []}"),
        Err(RecipeError::InstructionsNotString)
    );
    assert_eq!(parse_recipe("{\"instructions\": null}"), Err(RecipeError::InstructionsNotString));
    assert_eq!(parse_recipe("{\"instructions\": \"x\"}"), Err(RecipeError::MissingActivities));
    assert_eq!(
        parse_recipe("{\"instructions\": \"x\", \"activities\": \"a\"}"),
        Err(RecipeError::ActivitiesNotArray)
    );
    assert_eq!(
        parse_recipe("{\"instructions\": \"x\", \"activities\": [\"a\", 2]}"),
        Err(RecipeError::ActivityNotString)
    );
    assert_eq!(
        parse_recipe("```\n{\"instructions\": \"x\", \"activities\": [[]]}\n```"),
        Err(RecipeError::ActivityNotString)
    );
}

#[test]
fn the_errors_have_their_texts() {
    assert_eq!(RecipeError::MissingInstructions.message(), "Missing 'instructions' in json response");
    assert_eq!(RecipeError::InstructionsNotString.message(), "instructions' is not a string");
    assert_eq!(RecipeError::MissingActivities.message(), "Missing 'activities' in json response");
    assert_eq!(RecipeError::ActivitiesNotArray.message(), "'activities' is not an array'");
    assert_eq!(RecipeError::ActivityNotString.message(), "'activities' array element is not a string");
}

#[test]
fn the_members_decide_in_order() {
    assert_eq!(
        recipe_from_json(JsonText::Missing, JsonTexts::NotArray),
        Err(RecipeError::MissingInstructions)
    );
    assert_eq!(
        recipe_from_json(JsonText::NotString, JsonTexts::Missing),
        Err(RecipeError::InstructionsNotString)
    );
    assert_eq!(
        recipe_from_json(JsonText::Text("x".to_string()), JsonTexts::Missing),
        Err(RecipeError::MissingActivities)
    );
    assert_eq!(
        recipe_from_json(JsonText::Text("x".to_string()), JsonTexts::NotArray),
        Err(RecipeError::ActivitiesNotArray)
    );
    assert_eq!(
        recipe_from_json(JsonText::Text("x".to_string()), JsonTexts::NotStrings),
        Err(RecipeError::ActivityNotString)
    );
    assert_eq!(
        recipe_from_json(JsonText::Text("x".to_string()), JsonTexts::Texts(vec!["a".to_string()])),
        Ok(recipe("x", &["a"]))
    );
}

#[test]
fn a_recipe_is_read_from_plain_text() {
    let content = "Sure!\n## instructions: Review the code carefully \n\n## \nactivities:\n- run the tests\n* read the diff\n\n  3. write the summary\n\u{2022} ship it\n12 \n";
    assert_eq!(
        parse_recipe(content),
        Ok(recipe(
            "Review the code carefully",
            &["run the tests", "read the diff", "3. write the summary", "ship it"]
        ))
    );
}

#[test]
fn plain_text_without_markers_is_all_instructions() {
    assert_eq!(parse_recipe("  just do it ##  "), Ok(recipe("just do it", &[])));
    assert_eq!(parse_recipe(""), Ok(recipe("", &[])));
    assert_eq!(recipe_from_text("activities:\n-a\n-  b"), recipe("", &["a", "b"]));
    assert_eq!(recipe_from_text("instructions: x activities: y"), recipe("x", &["y"]));
    assert_eq!(
        recipe_from_text("instructions: one instructions: two activities: a activities: b"),
        recipe("one instructions: two", &["a activities: b"])
    );
}

#[test]
fn a_fenced_block_that_is_no_json_is_read_as_plain_text() {
    let content = "```\ninstructions: tidy up\nactivities:\n1. sweep\n```";
    assert_eq!(parse_recipe(content), Ok(recipe("tidy up", &["sweep", "```"])));
}

#[test]
fn lines_are_stripped_and_filtered() {
    let lines = vec!["- a".to_string(), "   ".to_string(), "7.b".to_string(), "-*-".to_string(), " - c".to_string()];
    assert_eq!(strip_lines(&lines), vec!["a", "", "b", "", "- c"]);
    assert_eq!(keep_nonempty(strip_lines(&lines)), vec!["a", "b", "- c"]);
    assert_eq!(keep_nonempty(vec![]), Vec::<String>::new());
    assert!(filler('#'));
    assert!(filler(' '));
    assert!(filler('\n'));
    assert!(filler('\u{3000}'));
    assert!(!filler('a'));
    assert!(!filler('-'));
}

#[test]
fn string_members_are_read_from_json() {
    assert_eq!(string_member("{\"a\": \"x\"}", "a"), Some("x".to_string()));
    assert_eq!(string_member("{\"a\": \"x\"}", "b"), None);
    assert_eq!(string_member("{\"a\": 1}", "a"), None);
    assert_eq!(string_member("[\"a\"]", "a"), None);
    assert_eq!(string_member("{\"a\": ", "a"), None);
    assert_eq!(as_string(Some(JsonText::Text("t".to_string()))), Some("t".to_string()));
    assert_eq!(as_string(Some(JsonText::NotString)), None);
    assert_eq!(as_string(Some(JsonText::Missing)), None);
    assert_eq!(as_string(None), None);
}
