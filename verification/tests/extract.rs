use arete_codegen::extract::{find_routines, find_type_names, RoutineDecl};
use arete_codegen::{FfiGenerator, StructType};

fn chars(s: &str) -> Vec<char> {
    s.chars().collect()
}

fn names(text: &str, keyword: &str) -> Vec<String> {
    find_type_names(&chars(text), &chars(keyword))
}

fn routines(text: &str, keyword: &str) -> Vec<(String, String)> {
    find_routines(&chars(text), &chars(keyword))
        .into_iter()
        .map(|RoutineDecl { name, body }| (name, body))
        .collect()
}

fn pair(name: &str, body: &str) -> (String, String) {
    (name.to_string(), body.to_string())
}

#[test]
fn type_names_in_text_order() {
    assert_eq!(
        names("TYPE_VALUE(B) x TYPE_VALUE( A )\nTYPE_VALUE(\tC\n)", "TYPE_VALUE"),
        vec!["B", "A", "C"]
    );
}

#[test]
fn type_group_must_hold_one_word() {
    assert_eq!(names("TYPE_VALUE()", "TYPE_VALUE"), Vec::<String>::new());
    assert_eq!(names("TYPE_VALUE(  )", "TYPE_VALUE"), Vec::<String>::new());
    assert_eq!(names("TYPE_VALUE(A B)", "TYPE_VALUE"), Vec::<String>::new());
    assert_eq!(names("TYPE_VALUE(A B) TYPE_VALUE(C)", "TYPE_VALUE"), vec!["C"]);
}

#[test]
fn keyword_must_be_followed_by_the_bracket() {
    assert_eq!(names("TYPE_VALUE (A)", "TYPE_VALUE"), Vec::<String>::new());
    assert_eq!(names("TYPE_VALUE", "TYPE_VALUE"), Vec::<String>::new());
    assert_eq!(names("TYPE_VALUEX(A)", "TYPE_VALUE"), Vec::<String>::new());
    assert_eq!(names("MY_TYPE_VALUE(A)", "TYPE_VALUE"), vec!["A"]);
}

#[test]
fn group_that_never_closes_declares_nothing() {
    assert_eq!(names("TYPE_VALUE(A", "TYPE_VALUE"), Vec::<String>::new());
    assert_eq!(names("TYPE_VALUE((A)", "TYPE_VALUE"), Vec::<String>::new());
    assert_eq!(names("TYPE_VALUE(( TYPE_VALUE(B)", "TYPE_VALUE"), vec!["B"]);
}

#[test]
fn group_ends_at_the_bracket_that_closes_it() {
    assert_eq!(names("TYPE_VALUE(F(1))", "TYPE_VALUE"), vec!["F(1)"]);
    assert_eq!(
        routines("ROUTINE(Run, Wrap(A)&, B&) tail)", "ROUTINE"),
        vec![pair("Run", " Wrap(A)&, B&")]
    );
    assert_eq!(
        routines("ROUTINE(Run, ((A))&) ROUTINE(Next, B&)", "ROUTINE"),
        vec![pair("Run", " ((A))&"), pair("Next", " B&")]
    );
}

#[test]
fn routine_splits_at_the_first_comma() {
    assert_eq!(
        routines("ROUTINE(Move, Query<const A&, B&>&, C&)", "ROUTINE"),
        vec![pair("Move", " Query<const A&, B&>&, C&")]
    );
    assert_eq!(routines("ROUTINE(Move,A&)", "ROUTINE"), vec![pair("Move", "A&")]);
    assert_eq!(routines("ROUTINE(Move,)", "ROUTINE"), vec![pair("Move", "")]);
}

#[test]
fn group_without_comma_declares_no_routine() {
    assert_eq!(routines("ROUTINE( Init )", "ROUTINE"), vec![]);
    assert_eq!(routines("ROUTINE(Init) , A&)", "ROUTINE"), vec![]);
    assert_eq!(routines("ROUTINE(Init) ROUTINE(Run, A&)", "ROUTINE"), vec![pair("Run", " A&")]);
    assert_eq!(routines("ROUTINE( Init , )", "ROUTINE"), vec![pair("Init", " ")]);
}

#[test]
fn routine_name_is_the_last_word_before_the_comma() {
    assert_eq!(routines("ROUTINE(void Move , A&)", "ROUTINE"), vec![pair("Move", " A&")]);
    assert_eq!(routines("ROUTINE(\n  Move,\n  A&\n)", "ROUTINE"), vec![pair("Move", "\n  A&\n")]);
}

#[test]
fn routine_needs_a_name() {
    assert_eq!(routines("ROUTINE()", "ROUTINE"), vec![]);
    assert_eq!(routines("ROUTINE( , A&)", "ROUTINE"), vec![]);
    assert_eq!(routines("ROUTINE(, A&) ROUTINE(B, C&)", "ROUTINE"), vec![pair("B", " C&")]);
}

#[test]
fn the_two_routine_keywords_do_not_overlap() {
    let text = "ROUTINE_ONCE(Init, A&) ROUTINE(Run, B&)";
    assert_eq!(routines(text, "ROUTINE"), vec![pair("Run", " B&")]);
    assert_eq!(routines(text, "ROUTINE_ONCE"), vec![pair("Init", " A&")]);
}

#[test]
fn search_goes_on_behind_a_declaration() {
    assert_eq!(
        routines("ROUTINE(A, ROUTINE(B, C&)&) ROUTINE(D,)", "ROUTINE"),
        vec![pair("A", " ROUTINE(B, C&)&"), pair("D", "")]
    );
}

#[test]
fn catalogue_lists_values_before_singletons_and_once_before_cyclic() {
    let g = FfiGenerator::from_source(
        "ROUTINE(Run, A&)\nTYPE_SINGLETON(S)\nROUTINE_ONCE(Init,)\nTYPE_VALUE(V)\nTYPE_SINGLETON(T)\nROUTINE(Stop, )",
    )
    .unwrap();
    let structs: Vec<(&str, &str, StructType)> = g
        .structs
        .iter()
        .map(|s| (s.ident.as_str(), s.string_id.as_str(), s.struct_type))
        .collect();
    assert_eq!(
        structs,
        vec![
            ("V", "game_module::V", StructType::Component),
            ("S", "game_module::S", StructType::Resource),
            ("T", "game_module::T", StructType::Resource),
        ]
    );
    let systems: Vec<(&str, bool, usize)> =
        g.systems.iter().map(|s| (s.ident.as_str(), s.is_once, s.inputs.len())).collect();
    assert_eq!(systems, vec![("Init", true, 0), ("Run", false, 1), ("Stop", false, 0)]);
}

#[test]
fn counts_in_the_emitted_text_are_those_of_the_declarations() {
    let g = FfiGenerator::from_source(
        "ROUTINE(A, X&, Y&, Z&) ROUTINE(B,) ROUTINE_ONCE(C, Query<X&>&)",
    )
    .unwrap();
    assert_eq!(g.gen_systems_len(), "extern \"C\" size_t routines_len() {\n    return 3;\n}\n\n");
    let lens = g.gen_system_args_len();
    assert!(lens.contains(
        "        case 0: return 1;\n        case 1: return 3;\n        case 2: return 0;\n"
    ));
}
