use pctx::case::Case;

#[test]
fn test_trailing_underscore() {
    let input = "ident_";
    assert_eq!(Case::Camel.sanitize(input), "ident_");
}

#[test]
fn test_leading_underscore() {
    let input = "_ident";
    assert_eq!(Case::Camel.sanitize(input), "_ident");
}

#[test]
fn test_pascal_basic() {
    assert_eq!(Case::Pascal.sanitize("hello_world"), "HelloWorld");
    assert_eq!(Case::Pascal.sanitize("foo"), "Foo");
    assert_eq!(Case::Pascal.sanitize("Foo child"), "FooChild");
}

#[test]
fn test_pascal_idempotent_samples() {
    for input in ["hello_world", "apiPostSearch", "_ident", "ident_", "a b c", "x9y"] {
        let once = Case::Pascal.sanitize(input);
        let twice = Case::Pascal.sanitize(&once);
        assert_eq!(once, twice, "Pascal should be idempotent on {input:?}");
    }
}

#[test]
fn test_camel_basic() {
    assert_eq!(Case::Camel.sanitize("get_data"), "getData");
    assert_eq!(Case::Camel.sanitize("HelloWorld"), "helloWorld");
    assert_eq!(Case::Camel.sanitize("echo"), "echo");
}

#[test]
fn test_other_styles() {
    assert_eq!(Case::Snake.sanitize("HelloWorld"), "hello_world");
    assert_eq!(Case::ShoutySnake.sanitize("helloWorld"), "HELLO_WORLD");
    assert_eq!(Case::Kebab.sanitize("helloWorld"), "hello-world");
    assert_eq!(Case::Title.sanitize("hello_world"), "Hello World");
    assert_eq!(Case::Lowercase.sanitize("Hello-World_9"), "helloworld_9");
}

#[test]
fn test_empty_input() {
    assert_eq!(Case::Pascal.sanitize(""), "");
    assert_eq!(Case::Camel.sanitize(""), "");
}

#[test]
fn test_acronym_runs_and_non_ascii() {
    // every uppercase letter starts a word, so acronym runs survive the
    // Pascal style and split in the snake style
    assert_eq!(Case::Pascal.sanitize("HTTPServer"), "HTTPServer");
    assert_eq!(Case::Snake.sanitize("HTTPServer"), "h_t_t_p_server");
    // non-ASCII characters separate words rather than joining them
    assert_eq!(Case::Pascal.sanitize("caf\u{e9}X"), "CafX");
}
