use case_transform::case::{to_camel_case, to_dashed_case, to_pascal_case, to_snake_case};

#[test]
fn snake_case_splits_on_case_and_on_delimiters() {
    assert_eq!(to_snake_case("FooBAR-baz"), "foo_bar_baz");
    assert_eq!(to_snake_case("fooBar"), "foo_bar");
    assert_eq!(to_snake_case("FooBar"), "foo_bar");
    assert_eq!(to_snake_case("foo-bar"), "foo_bar");
    assert_eq!(to_snake_case("foo bar"), "foo_bar");
}

#[test]
fn camel_case_capitalises_every_word_but_the_first() {
    assert_eq!(to_camel_case("foo_bar_baz"), "fooBarBaz");
    assert_eq!(to_camel_case("FooBar"), "fooBar");
    assert_eq!(to_camel_case("foo-bar"), "fooBar");
}

#[test]
fn pascal_case_capitalises_every_word() {
    assert_eq!(to_pascal_case("foo-bar"), "FooBar");
    assert_eq!(to_pascal_case("foo_bar_baz"), "FooBarBaz");
    assert_eq!(to_pascal_case("fooBar"), "FooBar");
}

#[test]
fn pascal_case_puts_the_last_word_into_the_singular() {
    assert_eq!(to_pascal_case("user_ids"), "UserId");
    assert_eq!(to_pascal_case("userIds"), "UserId");
}

#[test]
fn dashed_case_joins_the_words_with_hyphens() {
    assert_eq!(to_dashed_case("FooBar"), "foo-bar");
    assert_eq!(to_dashed_case("foo_bar_baz"), "foo-bar-baz");
    assert_eq!(to_dashed_case("fooBar"), "foo-bar");
}

#[test]
fn empty_token_stays_empty() {
    assert_eq!(to_snake_case(""), "");
    assert_eq!(to_dashed_case(""), "");
    assert_eq!(to_camel_case(""), "");
    assert_eq!(to_pascal_case(""), "");
}

#[test]
fn token_of_delimiters_alone_becomes_empty() {
    assert_eq!(to_snake_case("___"), "");
    assert_eq!(to_dashed_case("---"), "");
}

#[test]
fn acronym_is_one_word() {
    assert_eq!(to_snake_case("FooBAR"), "foo_bar");
    assert_eq!(to_snake_case("parseHTTPResponse"), "parse_http_response");
    assert_eq!(to_dashed_case("parseHTTPResponse"), "parse-http-response");
    assert_eq!(to_camel_case("parseHTTPResponse"), "parseHttpResponse");
    assert_eq!(to_pascal_case("parseHTTPResponse"), "ParseHttpResponse");
}

#[test]
fn delimiters_at_the_ends_are_dropped() {
    assert_eq!(to_snake_case("_foo_bar_"), "foo_bar");
    assert_eq!(to_snake_case("--foo-bar--"), "foo_bar");
    assert_eq!(to_dashed_case("_foo_bar_"), "foo-bar");
    assert_eq!(to_dashed_case("--foo-bar--"), "foo-bar");
    assert_eq!(to_camel_case("_foo_bar_"), "fooBar");
    assert_eq!(to_pascal_case("--foo-bar--"), "FooBar");
}

#[test]
fn repeated_delimiters_count_once() {
    assert_eq!(to_snake_case("foo__bar"), "foo_bar");
    assert_eq!(to_dashed_case("foo--bar"), "foo-bar");
}

#[test]
fn digits_stay_with_their_word_in_the_camel_forms() {
    assert_eq!(to_camel_case("foo1_bar"), "foo1Bar");
    assert_eq!(to_camel_case("fooBar3"), "fooBar3");
    assert_eq!(to_pascal_case("foo1Bar"), "Foo1Bar");
    assert_eq!(to_pascal_case("fooBar3"), "FooBar3");
}

#[test]
fn digits_after_a_delimiter_stay_where_they_are() {
    assert_eq!(to_snake_case("foo_bar_3"), "foo_bar_3");
    assert_eq!(to_dashed_case("foo-bar-3"), "foo-bar-3");
    assert_eq!(to_snake_case("123"), "123");
}

// Inflector begins a word at a digit that follows a lower-case letter.
#[test]
fn digit_after_a_lower_case_letter_begins_a_word_in_snake_form() {
    assert_eq!(to_snake_case("fooBar3"), "foo_bar_3");
    assert_eq!(to_dashed_case("fooBar3"), "foo-bar-3");
}

#[test]
fn snake_case_of_a_snake_form_is_the_same() {
    for token in ["FooBAR-baz", "fooBar", "foo_bar_baz", "parseHTTPResponse", "_foo_bar_", "fooBar3", ""] {
        let once = to_snake_case(token);
        assert_eq!(to_snake_case(&once), once);
    }
}

#[test]
fn each_converter_keeps_its_own_output() {
    for token in ["FooBAR-baz", "fooBar", "foo_bar_baz", "parseHTTPResponse"] {
        let dashed = to_dashed_case(token);
        assert_eq!(to_dashed_case(&dashed), dashed);
        let camel = to_camel_case(token);
        assert_eq!(to_camel_case(&camel), camel);
        let pascal = to_pascal_case(token);
        assert_eq!(to_pascal_case(&pascal), pascal);
    }
}

#[test]
fn round_trip_through_snake_case_loses_acronyms() {
    let token = "parseHTTPResponse";
    let back = to_camel_case(&to_snake_case(token));
    assert_eq!(back, "parseHttpResponse");
    assert_ne!(back, token);
    assert_ne!(to_camel_case(&to_snake_case("fooBAR")), "fooBAR");
}
