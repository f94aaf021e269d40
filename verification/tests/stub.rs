use imgdl::stub::{narrow_stub, naming_strategy_type, replace_once_or_confirm};

#[test]
fn a_single_occurrence_is_replaced() {
    let result = replace_once_or_confirm("a b c".to_string(), "b", "xyz");
    assert_eq!(result, Ok("a xyz c".to_string()));
}

#[test]
fn a_replaced_text_is_confirmed() {
    let result = replace_once_or_confirm("a xyz c".to_string(), "b", "xyz");
    assert_eq!(result, Ok("a xyz c".to_string()));
}

#[test]
fn a_text_with_neither_is_an_error() {
    let result = replace_once_or_confirm("a c".to_string(), "b\"", "x");
    assert_eq!(result, Err("expected \"b\\\"\" or \"x\", found neither".to_string()));
    let twice = replace_once_or_confirm("x x".to_string(), "b", "x");
    assert_eq!(twice, Err("expected \"b\" or \"x\", found neither".to_string()));
}

#[test]
fn several_occurrences_are_an_error() {
    let result = replace_once_or_confirm("b b b".to_string(), "b", "x");
    assert_eq!(result, Err("expected one occurrence of \"b\", found 3".to_string()));
    // Occurrences do not overlap.
    let result = replace_once_or_confirm("aaa".to_string(), "aa", "x");
    assert_eq!(result, Ok("xa".to_string()));
    let result = replace_once_or_confirm("ab".to_string(), "", "x");
    assert_eq!(result, Err("expected one occurrence of \"\", found 3".to_string()));
    assert_eq!(replace_once_or_confirm(String::new(), "", "x"), Ok("x".to_string()));
}

#[test]
fn the_naming_strategy_is_narrowed_twice() {
    let stub = "def naming_strategy(self) -> builtins.str: ...\n\
                def __new__(cls, naming_strategy: builtins.str = 'url_based'): ...\n";
    let narrowed = narrow_stub(stub.to_string()).unwrap();
    let names = naming_strategy_type();
    assert_eq!(
        names,
        r#"typing.Literal["content_hash", "url_based", "sequential", "file_header"]"#
    );
    assert_eq!(
        narrowed,
        format!(
            "def naming_strategy(self) -> {names}: ...\n\
             def __new__(cls, naming_strategy: {names} = 'url_based'): ...\n"
        )
    );
    // Narrowing once more changes nothing.
    assert_eq!(narrow_stub(narrowed.clone()), Ok(narrowed));
    assert!(narrow_stub("nothing".to_string()).is_err());
}
