use recipe_store::document::{
    recipe_from_value, recipe_to_value, recipes_from_value, texts_from_value, texts_to_value,
};
use recipe_store::persistence::printed;
use recipe_store::recipe::{same_recipes, same_texts};
use recipe_store::{
    add_recipe, all_recipes, edit_recipe, get_recipe_details, get_recipes_json, parse_recipe,
    recipe_names, Details, LoadError, Recipe, RecipeStore, StoreError,
};
use serde_json::Value;

const ADD_BUTTERED_BAGEL: &str = r#"{
  "recipes": [
    {
      "ingredients": [
        "1 tsp oil",
        "2 eggs",
        "salt"
      ],
      "instructions": [
        "Beat eggs with salt",
        "Heat oil in pan",
        "Add eggs to pan when hot",
        "Gather eggs into curds, remove when cooked",
        "Salt to taste and enjoy"
      ],
      "name": "scrambledEggs"
    },
    {
      "ingredients": [
        "500mL water",
        "100g spaghetti",
        "25mL olive oil",
        "4 cloves garlic",
        "Salt"
      ],
      "instructions": [
        "Heat garlic in olive oil",
        "Boil water in pot",
        "Add pasta to boiling water",
        "Remove pasta from water and mix with garlic olive oil",
        "Salt to taste and enjoy"
      ],
      "name": "garlicPasta"
    },
    {
      "ingredients": [
        "400mL water",
        "100mL milk",
        "5g chai masala",
        "2 tea bags or 20 g loose tea leaves"
      ],
      "instructions": [
        "Heat water until 80 C",
        "Add milk, heat until 80 C",
        "Add tea leaves/tea bags, chai masala; mix and steep for 3-4 minutes",
        "Remove mixture from heat; strain and enjoy"
      ],
      "name": "chai"
    },
    {
      "ingredients": [
        "1 bagel",
        "butter"
      ],
      "instructions": [
        "cut the bagel",
        "spread butter on bagel"
      ],
      "name": "butteredBagel"
    }
  ]
}"#;

const BAGEL_RECIPE: &str = r#"{
	"name": "butteredBagel", 
		"ingredients": [
			"1 bagel", 
			"butter"
		], 
	"instructions": [
		"cut the bagel", 
		"spread butter on bagel"
	] 
}"#;

const OATMEAL: &str =
    r#"{"name":"oatmeal","ingredients":["oats","water"],"instructions":["boil","stir"]}"#;

fn remove_whitespace(s: &str) -> String {
    s.chars().filter(|c| !c.is_whitespace()).collect()
}

fn seeded() -> RecipeStore {
    RecipeStore::load(ADD_BUTTERED_BAGEL).expect("the seed data is a collection")
}

fn strings(items: &[&str]) -> Vec<String> {
    items.iter().map(|s| s.to_string()).collect()
}

fn recipe(name: &str, ingredients: &[&str], instructions: &[&str]) -> Recipe {
    Recipe {
        name: name.to_string(),
        ingredients: strings(ingredients),
        instructions: strings(instructions),
    }
}

fn value(text: &str) -> Value {
    serde_json::from_str::<Value>(text).expect("the text is JSON")
}

#[test]
fn get_recipe_names_200_success() {
    let store = seeded();
    let recipe_names_text =
        r#"{"recipeNames":["scrambledEggs","garlicPasta","chai","butteredBagel"]}"#;
    assert_eq!(recipe_names(&store).to_string(), recipe_names_text);
}

#[test]
fn get_recipe_details_200_success() {
    let store = seeded();
    let recipe_details = r#"{"details":{"ingredients":["500mL water","100g spaghetti","25mL olive oil","4 cloves garlic","Salt"],"numSteps":5}}"#;
    let answer = get_recipe_details(&store, "garlicPasta").expect("the recipe is there");
    assert_eq!(answer.to_string(), recipe_details);
}

#[test]
fn get_recipe_details_200_no_recipe_found() {
    let store = seeded();
    assert_eq!(get_recipe_details(&store, "notARecipe"), Err(StoreError::NotFound));
    assert_eq!(store.get_details("notARecipe"), Err(StoreError::NotFound));
}

#[test]
fn post_add_recipe_200_success() {
    let mut store = seeded();
    let outcome = add_recipe(&store, BAGEL_RECIPE);
    assert!(matches!(outcome, Err(StoreError::AlreadyExists)));
    let parsed = parse_recipe(BAGEL_RECIPE).expect("the body is a recipe");
    assert_eq!(store.add(parsed), Err(StoreError::AlreadyExists));
    let file = store.render().expect("the document prints");
    assert_eq!(remove_whitespace(&file), remove_whitespace(ADD_BUTTERED_BAGEL));
}

#[test]
fn list_names_of_the_seed_data() {
    let store = seeded();
    assert_eq!(
        store.list_names(),
        strings(&["scrambledEggs", "garlicPasta", "chai", "butteredBagel"])
    );
    assert_eq!(store.len(), 4);
}

#[test]
fn list_names_of_the_empty_collection() {
    let store = RecipeStore::new();
    assert_eq!(store.list_names(), Vec::<String>::new());
    assert_eq!(store.len(), 0);
    assert_eq!(recipe_names(&store).to_string(), r#"{"recipeNames":[]}"#);
}

#[test]
fn details_of_garlic_pasta() {
    let store = seeded();
    let details = store.get_details("garlicPasta").expect("the recipe is there");
    assert_eq!(
        details,
        Details {
            ingredients: strings(&[
                "500mL water",
                "100g spaghetti",
                "25mL olive oil",
                "4 cloves garlic",
                "Salt"
            ]),
            num_steps: 5,
        }
    );
}

#[test]
fn lookup_is_exact_on_case() {
    let store = seeded();
    assert_eq!(store.get_details("garlicpasta"), Err(StoreError::NotFound));
    assert_eq!(store.get_details("garlicPasta "), Err(StoreError::NotFound));
    assert_eq!(store.get_details(""), Err(StoreError::NotFound));
}

#[test]
fn add_buttered_bagel_again_is_refused() {
    let mut store = seeded();
    let before = store.render().expect("the document prints");
    let outcome = store.add(recipe("butteredBagel", &["something else"], &[]));
    assert_eq!(outcome, Err(StoreError::AlreadyExists));
    assert_eq!(store.render().expect("the document prints"), before);
    assert_eq!(before, ADD_BUTTERED_BAGEL);
}

#[test]
fn add_oatmeal() {
    let mut store = seeded();
    let outcome = store.add(recipe("oatmeal", &["oats", "water"], &["boil", "stir"]));
    assert_eq!(outcome, Ok(()));
    assert_eq!(
        store.list_names(),
        strings(&["scrambledEggs", "garlicPasta", "chai", "butteredBagel", "oatmeal"])
    );
    let file = store.render().expect("the document prints");
    let reloaded = RecipeStore::load(&file).expect("the document loads");
    assert_eq!(reloaded.len(), 5);
    assert_eq!(
        reloaded.get_details("oatmeal"),
        Ok(Details { ingredients: strings(&["oats", "water"]), num_steps: 2 })
    );
}

#[test]
fn added_recipe_is_found() {
    let mut store = RecipeStore::new();
    assert_eq!(store.add(recipe("tea", &["water", "leaves"], &["boil", "steep", "pour"])), Ok(()));
    assert_eq!(
        store.get_details("tea"),
        Ok(Details { ingredients: strings(&["water", "leaves"]), num_steps: 3 })
    );
    assert_eq!(store.add(recipe("toast", &[], &[])), Ok(()));
    assert_eq!(store.get_details("toast"), Ok(Details { ingredients: vec![], num_steps: 0 }));
}

#[test]
fn add_without_a_name_is_invalid() {
    let mut store = seeded();
    assert_eq!(store.add(recipe("", &["x"], &["y"])), Err(StoreError::InvalidInput));
    assert_eq!(store.replace(recipe("", &["x"], &["y"])), Err(StoreError::InvalidInput));
    assert_eq!(store.len(), 4);
    assert_eq!(store.render().expect("the document prints"), ADD_BUTTERED_BAGEL);
}

#[test]
fn replace_of_an_unknown_name_is_refused() {
    let mut store = seeded();
    assert_eq!(store.replace(recipe("oatmeal", &["oats"], &["boil"])), Err(StoreError::NotFound));
    assert_eq!(store.render().expect("the document prints"), ADD_BUTTERED_BAGEL);
}

#[test]
fn replace_moves_the_entry_to_the_end() {
    let mut store = seeded();
    let outcome = store.replace(recipe("garlicPasta", &["pasta", "garlic"], &["cook"]));
    assert_eq!(outcome, Ok(()));
    assert_eq!(
        store.list_names(),
        strings(&["scrambledEggs", "chai", "butteredBagel", "garlicPasta"])
    );
    assert_eq!(
        store.get_details("garlicPasta"),
        Ok(Details { ingredients: strings(&["pasta", "garlic"]), num_steps: 1 })
    );
    assert_eq!(store.len(), 4);
}

#[test]
fn names_after_several_adds() {
    let mut store = RecipeStore::new();
    let names = ["a", "b", "c", "d", "e", "f"];
    for name in names {
        assert_eq!(store.add(recipe(name, &[], &[])), Ok(()));
    }
    assert_eq!(store.list_names(), strings(&names));
}

#[test]
fn one_name_goes_in_once() {
    let mut store = RecipeStore::new();
    assert_eq!(store.add(recipe("soup", &["water"], &[])), Ok(()));
    assert_eq!(store.add(recipe("soup", &["stock"], &[])), Err(StoreError::AlreadyExists));
    assert_eq!(store.add(recipe("stew", &["stock"], &[])), Ok(()));
    assert_eq!(store.list_names(), strings(&["soup", "stew"]));
    assert_eq!(
        store.get_details("soup"),
        Ok(Details { ingredients: strings(&["water"]), num_steps: 0 })
    );
}

#[test]
fn reload_after_a_change_finds_the_same_recipes() {
    let mut store = seeded();
    assert_eq!(store.add(recipe("oatmeal", &["oats", "water"], &["boil", "stir"])), Ok(()));
    assert_eq!(store.replace(recipe("chai", &["tea \"bag\"", "milk\n"], &["steep"])), Ok(()));
    let file = store.render().expect("the document prints");
    let reloaded = RecipeStore::load(&file).expect("the document loads");
    assert_eq!(reloaded.recipes(), store.recipes());
    assert_eq!(reloaded.render().expect("the document prints"), file);
}

#[test]
fn render_is_the_indented_document() {
    assert_eq!(seeded().render().expect("the document prints"), ADD_BUTTERED_BAGEL);
    assert_eq!(
        RecipeStore::new().render().expect("the document prints"),
        "{\n  \"recipes\": []\n}"
    );
}

#[test]
fn to_value_is_the_document() {
    let store = seeded();
    assert_eq!(store.to_value(), value(ADD_BUTTERED_BAGEL));
}

#[test]
fn snapshot_is_a_copy() {
    let mut store = seeded();
    let copy = store.snapshot();
    assert_eq!(store.add(recipe("oatmeal", &[], &[])), Ok(()));
    assert_eq!(copy.len(), 4);
    assert_eq!(copy.render().expect("the document prints"), ADD_BUTTERED_BAGEL);
    assert_eq!(store.len(), 5);
}

#[test]
fn load_refuses_what_is_no_json() {
    assert_eq!(RecipeStore::load("").err(), Some(LoadError::NotJson));
    assert_eq!(RecipeStore::load("{\"recipes\": [").err(), Some(LoadError::NotJson));
}

#[test]
fn load_refuses_a_document_without_the_collection() {
    assert_eq!(RecipeStore::load("{}").err(), Some(LoadError::MissingCollection));
    assert_eq!(RecipeStore::load("{\"recipe\": []}").err(), Some(LoadError::MissingCollection));
    assert_eq!(RecipeStore::load("[]").err(), Some(LoadError::MissingCollection));
    assert_eq!(RecipeStore::load("null").err(), Some(LoadError::MissingCollection));
}

#[test]
fn load_refuses_a_malformed_collection() {
    assert_eq!(RecipeStore::load("{\"recipes\": {}}").err(), Some(LoadError::MalformedCollection));
    assert_eq!(RecipeStore::load("{\"recipes\": [1]}").err(), Some(LoadError::MalformedCollection));
    assert_eq!(
        RecipeStore::load(r#"{"recipes": [{"name": "a", "ingredients": []}]}"#).err(),
        Some(LoadError::MalformedCollection)
    );
    assert_eq!(
        RecipeStore::load(r#"{"recipes": [{"name": "a", "ingredients": [2], "instructions": []}]}"#)
            .err(),
        Some(LoadError::MalformedCollection)
    );
    assert_eq!(
        RecipeStore::load(r#"{"recipes": [{"name": 7, "ingredients": [], "instructions": []}]}"#)
            .err(),
        Some(LoadError::MalformedCollection)
    );
}

#[test]
fn load_refuses_names_that_break_the_rule() {
    assert_eq!(
        RecipeStore::load(r#"{"recipes": [{"name": "", "ingredients": [], "instructions": []}]}"#)
            .err(),
        Some(LoadError::EmptyName)
    );
    let twice = r#"{"recipes": [
        {"name": "a", "ingredients": [], "instructions": []},
        {"name": "b", "ingredients": [], "instructions": []},
        {"name": "a", "ingredients": ["x"], "instructions": []}]}"#;
    assert_eq!(RecipeStore::load(twice).err(), Some(LoadError::DuplicateName));
    let both = r#"{"recipes": [
        {"name": "a", "ingredients": [], "instructions": []},
        {"name": "a", "ingredients": [], "instructions": []},
        {"name": "", "ingredients": [], "instructions": []}]}"#;
    assert_eq!(RecipeStore::load(both).err(), Some(LoadError::EmptyName));
}

#[test]
fn load_accepts_the_empty_collection_and_passes_over_other_members() {
    let store = RecipeStore::load(r#"{"recipes": [], "version": 3}"#).expect("it loads");
    assert_eq!(store.len(), 0);
    let store = RecipeStore::load(
        r#"{"recipes": [{"name": "a", "ingredients": ["i"], "instructions": ["s", "t"], "serves": 2}]}"#,
    )
    .expect("it loads");
    assert_eq!(store.recipes(), &vec![recipe("a", &["i"], &["s", "t"])]);
}

#[test]
fn from_recipes_checks_the_names() {
    let store = RecipeStore::from_recipes(vec![recipe("a", &[], &[]), recipe("b", &[], &[])])
        .expect("the names are in order");
    assert_eq!(store.list_names(), strings(&["a", "b"]));
    assert_eq!(
        RecipeStore::from_recipes(vec![recipe("a", &[], &[]), recipe("a", &[], &[])]).err(),
        Some(LoadError::DuplicateName)
    );
    assert_eq!(
        RecipeStore::from_recipes(vec![recipe("a", &[], &[]), recipe("", &[], &[])]).err(),
        Some(LoadError::EmptyName)
    );
    assert_eq!(RecipeStore::from_recipes(vec![]).expect("empty is fine").len(), 0);
}

#[test]
fn from_value_reads_a_document() {
    let store = RecipeStore::from_value(&value(ADD_BUTTERED_BAGEL)).expect("it is a collection");
    assert_eq!(store.len(), 4);
    assert_eq!(
        RecipeStore::from_value(&value("{\"recipes\": 4}")).err(),
        Some(LoadError::MalformedCollection)
    );
    assert_eq!(RecipeStore::from_value(&value("4")).err(), Some(LoadError::MissingCollection));
}

#[test]
fn get_recipes_json_is_the_compact_list() {
    let document = value(r#"{ "recipes" : [ {"name" : "a"}, 2 ], "other": true }"#);
    assert_eq!(get_recipes_json(&document), Ok(r#"[{"name":"a"},2]"#.to_string()));
}

#[test]
fn get_recipes_json_without_the_member() {
    let refusal = (502u16, "Could not find get top-level \"recipes\" property.".to_string());
    assert_eq!(get_recipes_json(&value("{\"other\": []}")), Err(refusal.clone()));
    assert_eq!(get_recipes_json(&value("[\"recipes\"]")), Err(refusal));
}

#[test]
fn all_recipes_is_the_compact_document() {
    assert_eq!(
        all_recipes(ADD_BUTTERED_BAGEL),
        Some(remove_whitespace_outside_strings(ADD_BUTTERED_BAGEL))
    );
    assert_eq!(all_recipes("{ \"b\": 1, \"a\": [ ] }"), Some("{\"a\":[],\"b\":1}".to_string()));
    assert_eq!(all_recipes("{"), None);
}

fn remove_whitespace_outside_strings(text: &str) -> String {
    let mut out = String::new();
    let mut inside = false;
    for c in text.chars() {
        if c == '"' {
            inside = !inside;
        }
        if inside || !c.is_whitespace() {
            out.push(c);
        }
    }
    out
}

#[test]
fn parse_recipe_reads_a_body() {
    assert_eq!(
        parse_recipe(BAGEL_RECIPE),
        Ok(recipe("butteredBagel", &["1 bagel", "butter"], &["cut the bagel", "spread butter on bagel"]))
    );
    assert_eq!(parse_recipe("not json"), Err(StoreError::InvalidInput));
    assert_eq!(parse_recipe("{\"name\": \"a\"}"), Err(StoreError::InvalidInput));
    assert_eq!(parse_recipe("[\"a\", [], []]"), Err(StoreError::InvalidInput));
    assert_eq!(
        parse_recipe(r#"{"name":"","ingredients":["i"],"instructions":["s"]}"#),
        Err(StoreError::InvalidInput)
    );
}

#[test]
fn mirrors_tells_whether_a_text_holds_the_collection() {
    let mut store = seeded();
    assert!(store.mirrors(ADD_BUTTERED_BAGEL));
    assert!(store.mirrors(&remove_whitespace_outside_strings(ADD_BUTTERED_BAGEL)));
    assert_eq!(store.add(recipe("oatmeal", &["oats", "water"], &["boil", "stir"])), Ok(()));
    assert!(!store.mirrors(ADD_BUTTERED_BAGEL));
    assert!(store.mirrors(&store.render().expect("the document prints")));
    assert!(!store.mirrors("{"));
    assert!(!store.mirrors("{}"));
    assert!(RecipeStore::new().mirrors("{\"recipes\": []}"));
    assert!(!RecipeStore::new().mirrors(ADD_BUTTERED_BAGEL));
}

#[test]
fn mirrors_minds_order_and_every_string() {
    let store = RecipeStore::from_recipes(vec![
        recipe("a", &["i"], &["s"]),
        recipe("b", &[], &[]),
    ])
    .expect("the names are in order");
    let text = |first: &str, second: &str| format!("{{\"recipes\": [{}, {}]}}", first, second);
    let a = r#"{"name":"a","ingredients":["i"],"instructions":["s"]}"#;
    let b = r#"{"name":"b","ingredients":[],"instructions":[]}"#;
    assert!(store.mirrors(&text(a, b)));
    assert!(!store.mirrors(&text(b, a)));
    assert!(!store.mirrors(&text(r#"{"name":"a","ingredients":["j"],"instructions":["s"]}"#, b)));
    assert!(!store.mirrors(&text(r#"{"name":"a","ingredients":["i"],"instructions":[]}"#, b)));
    assert!(!store.mirrors(&text(a, r#"{"name":"c","ingredients":[],"instructions":[]}"#)));
    assert!(!store.mirrors(&format!("{{\"recipes\": [{}]}}", a)));
}

#[test]
fn same_as_compares_every_part() {
    let first = recipe("n", &["i", "j"], &["s"]);
    assert!(first.same_as(&recipe("n", &["i", "j"], &["s"])));
    assert!(!first.same_as(&recipe("m", &["i", "j"], &["s"])));
    assert!(!first.same_as(&recipe("n", &["j", "i"], &["s"])));
    assert!(!first.same_as(&recipe("n", &["i"], &["s"])));
    assert!(!first.same_as(&recipe("n", &["i", "j"], &[])));
    assert!(same_texts(&strings(&[]), &strings(&[])));
    assert!(!same_texts(&strings(&["a"]), &strings(&["a", "a"])));
    assert!(same_recipes(&vec![first.copy()], &vec![first.copy()]));
    assert!(!same_recipes(&vec![first.copy()], &vec![]));
}

#[test]
fn values_to_texts_and_recipes() {
    assert_eq!(texts_from_value(&value(r#"["a", "", "b c"]"#)), Some(strings(&["a", "", "b c"])));
    assert_eq!(texts_from_value(&value("[]")), Some(vec![]));
    assert_eq!(texts_from_value(&value(r#"["a", null]"#)), None);
    assert_eq!(texts_from_value(&value(r#""a""#)), None);
    assert_eq!(
        recipe_from_value(&value(r#"{"name": "n", "ingredients": ["i"], "instructions": []}"#)),
        Some(recipe("n", &["i"], &[]))
    );
    assert_eq!(recipe_from_value(&value(r#"{"name": "n", "ingredients": ["i"]}"#)), None);
    assert_eq!(
        recipes_from_value(&value(
            r#"[{"name": "n", "ingredients": [], "instructions": ["s"]}, {"name": "m", "ingredients": [], "instructions": []}]"#
        )),
        Some(vec![recipe("n", &[], &["s"]), recipe("m", &[], &[])])
    );
    assert_eq!(recipes_from_value(&value(r#"[{"name": "n"}]"#)), None);
    assert_eq!(recipes_from_value(&value(r#"{"name": "n"}"#)), None);
}

#[test]
fn texts_and_recipes_to_values() {
    assert_eq!(texts_to_value(&strings(&["a", "b"])).to_string(), r#"["a","b"]"#);
    assert_eq!(texts_to_value(&vec![]).to_string(), "[]");
    assert_eq!(
        recipe_to_value(&recipe("n", &["i", "j"], &["s"])).to_string(),
        r#"{"ingredients":["i","j"],"instructions":["s"],"name":"n"}"#
    );
    let round = recipe_from_value(&recipe_to_value(&recipe("n", &["i", "j"], &["s"])));
    assert_eq!(round, Some(recipe("n", &["i", "j"], &["s"])));
}

#[test]
fn add_recipe_stages_and_commit_applies() {
    let mut store = seeded();
    let pending = add_recipe(&store, OATMEAL).expect("the recipe may be added");
    assert_eq!(store.len(), 4);
    assert_eq!(pending.store().len(), 5);
    assert_eq!(pending.document(), pending.store().render().expect("the document prints"));
    let reloaded = RecipeStore::load(pending.document()).expect("the document loads");
    assert_eq!(
        reloaded.list_names(),
        strings(&["scrambledEggs", "garlicPasta", "chai", "butteredBagel", "oatmeal"])
    );
    let file = pending.document().to_string();
    assert_eq!(store.commit(pending, Some(&file)), Ok(()));
    assert_eq!(
        store.list_names(),
        strings(&["scrambledEggs", "garlicPasta", "chai", "butteredBagel", "oatmeal"])
    );
    assert!(store.mirrors(&file));
}

#[test]
fn commit_needs_the_file_to_hold_the_new_collection() {
    let mut store = seeded();
    let pending = add_recipe(&store, OATMEAL).expect("the recipe may be added");
    assert_eq!(store.commit(pending, Some(ADD_BUTTERED_BAGEL)), Err(StoreError::PersistenceFailure));
    let pending = add_recipe(&store, OATMEAL).expect("the recipe may be added");
    let cut = &pending.document()[..40].to_string();
    assert_eq!(store.commit(pending, Some(cut)), Err(StoreError::PersistenceFailure));
    assert_eq!(store.render().expect("the document prints"), ADD_BUTTERED_BAGEL);
    let pending = add_recipe(&store, OATMEAL).expect("the recipe may be added");
    let compact = remove_whitespace_outside_strings(pending.document());
    assert_eq!(store.commit(pending, Some(&compact)), Ok(()));
    assert_eq!(store.len(), 5);
}

#[test]
fn commit_of_an_unwritten_change_is_a_persistence_failure() {
    let mut store = seeded();
    let pending = add_recipe(&store, OATMEAL).expect("the recipe may be added");
    assert_eq!(store.commit(pending, None), Err(StoreError::PersistenceFailure));
    assert_eq!(store.render().expect("the document prints"), ADD_BUTTERED_BAGEL);
    assert_eq!(store.get_details("oatmeal"), Err(StoreError::NotFound));
}

#[test]
fn add_recipe_refuses() {
    let store = seeded();
    assert!(matches!(add_recipe(&store, "{"), Err(StoreError::InvalidInput)));
    assert!(matches!(
        add_recipe(&store, r#"{"name":"","ingredients":[],"instructions":[]}"#),
        Err(StoreError::InvalidInput)
    ));
    assert!(matches!(add_recipe(&store, BAGEL_RECIPE), Err(StoreError::AlreadyExists)));
}

#[test]
fn edit_recipe_stages_a_replacement() {
    let mut store = seeded();
    let body = r#"{"name":"chai","ingredients":["tea"],"instructions":["steep","pour"]}"#;
    let pending = edit_recipe(&store, body).expect("the recipe is there");
    assert_eq!(
        pending.store().list_names(),
        strings(&["scrambledEggs", "garlicPasta", "butteredBagel", "chai"])
    );
    assert_eq!(store.list_names(), strings(&["scrambledEggs", "garlicPasta", "chai", "butteredBagel"]));
    let file = pending.document().to_string();
    assert_eq!(store.commit(pending, Some(&file)), Ok(()));
    assert_eq!(
        get_recipe_details(&store, "chai").expect("the recipe is there").to_string(),
        r#"{"details":{"ingredients":["tea"],"numSteps":2}}"#
    );
}

#[test]
fn edit_recipe_refuses() {
    let store = seeded();
    assert!(matches!(edit_recipe(&store, OATMEAL), Err(StoreError::NotFound)));
    assert!(matches!(edit_recipe(&store, "[]"), Err(StoreError::InvalidInput)));
    assert!(matches!(
        edit_recipe(&store, r#"{"name":"","ingredients":[],"instructions":[]}"#),
        Err(StoreError::InvalidInput)
    ));
}

#[test]
fn stage_add_and_stage_replace_leave_the_store() {
    let store = seeded();
    let pending = store.stage_add(recipe("oatmeal", &["oats"], &[])).expect("it may be added");
    assert_eq!(pending.store().len(), 5);
    let pending = store.stage_replace(recipe("chai", &[], &[])).expect("it is there");
    assert_eq!(pending.store().len(), 4);
    assert!(matches!(store.stage_add(recipe("chai", &[], &[])), Err(StoreError::AlreadyExists)));
    assert!(matches!(store.stage_replace(recipe("x", &[], &[])), Err(StoreError::NotFound)));
    assert_eq!(store.render().expect("the document prints"), ADD_BUTTERED_BAGEL);
}

#[test]
fn printed_reports_a_failure() {
    assert_eq!(printed(Ok("{}".to_string())), Ok("{}".to_string()));
    let error = serde_json::from_str::<Value>("{").expect_err("the text is no JSON");
    assert_eq!(printed(Err(error)), Err(StoreError::PersistenceFailure));
}

#[test]
fn recipe_copy_and_details() {
    let first = recipe("n", &["i", "j"], &["s", "t", "u"]);
    assert_eq!(first.copy(), first);
    assert_eq!(first.to_text(), "n");
    assert_eq!(first.details(), Details { ingredients: strings(&["i", "j"]), num_steps: 3 });
}

#[test]
fn staging_what_is_in_order_succeeds() {
    let store = seeded();
    assert!(store.stage_add(recipe("oatmeal", &["oats", "water"], &["boil", "stir"])).is_ok());
    assert!(store.stage_replace(recipe("chai", &[], &[])).is_ok());
    assert!(add_recipe(&store, OATMEAL).is_ok());
    assert!(edit_recipe(&store, BAGEL_RECIPE).is_ok());
    assert!(RecipeStore::new().render().is_ok());
}

#[test]
fn add_oatmeal_writes_five_recipes() {
    let mut store = seeded();
    let pending = add_recipe(&store, OATMEAL).expect("the recipe may be added");
    let file = pending.document().to_string();
    assert_eq!(store.commit(pending, Some(&file)), Ok(()));
    let written = RecipeStore::load(&file).expect("the document loads");
    let mut expected = seeded().recipes().clone();
    expected.push(recipe("oatmeal", &["oats", "water"], &["boil", "stir"]));
    assert_eq!(written.recipes(), &expected);
    assert_eq!(store.recipes(), &expected);
    assert_eq!(written.len(), 5);
}

#[test]
fn edit_of_the_first_of_three_moves_it_last() {
    let mut store = RecipeStore::from_recipes(vec![
        recipe("a", &["x"], &["s"]),
        recipe("b", &["y"], &["t"]),
        recipe("c", &[], &[]),
    ])
    .expect("the names are in order");
    let body = r#"{"name":"a","ingredients":["z"],"instructions":["u","v"]}"#;
    let pending = edit_recipe(&store, body).expect("the recipe is there");
    let file = pending.document().to_string();
    assert_eq!(store.commit(pending, Some(&file)), Ok(()));
    let expected =
        vec![recipe("b", &["y"], &["t"]), recipe("c", &[], &[]), recipe("a", &["z"], &["u", "v"])];
    assert_eq!(store.recipes(), &expected);
    assert_eq!(RecipeStore::load(&file).expect("the document loads").recipes(), &expected);
}

#[test]
fn edit_again_with_the_same_recipe_changes_nothing() {
    let mut store = seeded();
    let body = r#"{"name":"garlicPasta","ingredients":["pasta"],"instructions":["cook"]}"#;
    let pending = edit_recipe(&store, body).expect("the recipe is there");
    let first = pending.document().to_string();
    assert_eq!(store.commit(pending, Some(&first)), Ok(()));
    let after_first = store.snapshot();
    let pending = edit_recipe(&store, body).expect("the recipe is there");
    let second = pending.document().to_string();
    assert_eq!(store.commit(pending, Some(&second)), Ok(()));
    assert_eq!(store.recipes(), after_first.recipes());
    assert_eq!(second, first);
}

#[test]
fn edit_with_a_shorter_recipe_gives_the_whole_shorter_document() {
    let mut store = RecipeStore::from_recipes(vec![recipe(
        "a",
        &["one long ingredient"],
        &["one long step"],
    )])
    .expect("the name is in order");
    let before = store.render().expect("the document prints");
    let pending = edit_recipe(&store, r#"{"name":"a","ingredients":[],"instructions":[]}"#)
        .expect("the recipe is there");
    let file = pending.document().to_string();
    assert!(file.len() < before.len());
    assert_eq!(store.commit(pending, Some(&file)), Ok(()));
    assert_eq!(
        value(&file),
        value(r#"{"recipes":[{"name":"a","ingredients":[],"instructions":[]}]}"#)
    );
    assert_eq!(store.recipes(), &vec![recipe("a", &[], &[])]);
}

#[test]
fn edit_is_granted_exactly_for_a_name_that_is_there() {
    let store = seeded();
    for name in ["scrambledEggs", "garlicPasta", "chai", "butteredBagel"] {
        assert!(store.stage_replace(recipe(name, &[], &[])).is_ok());
    }
    for name in ["ScrambledEggs", "garlicpasta", "chai ", "oatmeal"] {
        assert!(matches!(store.stage_replace(recipe(name, &[], &[])), Err(StoreError::NotFound)));
    }
}
