//! The case converters: four naming conventions, each reached through the
//! snake form of the token.
//!
//! Splitting a token into words is Inflector's work. What Inflector returns
//! for a token depends on the token's characters and on nothing else, so the
//! contracts here speak of each result by a name.
use vstd::prelude::*;

verus! {

/// What Inflector's snake case returns for `token`.
pub uninterp spec fn snake_case_of(token: Seq<char>) -> Seq<char>;

/// What Inflector's kebab case returns for `token`.
pub uninterp spec fn kebab_case_of(token: Seq<char>) -> Seq<char>;

/// What Inflector's camel case returns for `token`.
pub uninterp spec fn camel_case_of(token: Seq<char>) -> Seq<char>;

/// What Inflector's class case returns for `token`.
pub uninterp spec fn class_case_of(token: Seq<char>) -> Seq<char>;

/// Calls `inflector::cases::snakecase::to_snake_case`.
///
/// Trusted, not proved: the result is a function of the token's characters,
/// and it is empty for the empty token. Nothing more is claimed of it.
#[verifier::external_body]
fn snake_case(token: &str) -> (out: String)
    ensures
        out@ == snake_case_of(token@),
        token@.len() == 0 ==> out@.len() == 0,
{
    inflector::cases::snakecase::to_snake_case(token)
}

/// Calls `inflector::cases::kebabcase::to_kebab_case`.
///
/// Trusted, not proved: the result is a function of the token's characters,
/// and it is empty for the empty token. Nothing more is claimed of it.
#[verifier::external_body]
fn kebab_case(token: &str) -> (out: String)
    ensures
        out@ == kebab_case_of(token@),
        token@.len() == 0 ==> out@.len() == 0,
{
    inflector::cases::kebabcase::to_kebab_case(token)
}

/// Calls `inflector::cases::camelcase::to_camel_case`.
///
/// Trusted, not proved: the result is a function of the token's characters,
/// and it is empty for the empty token. Nothing more is claimed of it.
#[verifier::external_body]
fn camel_case(token: &str) -> (out: String)
    ensures
        out@ == camel_case_of(token@),
        token@.len() == 0 ==> out@.len() == 0,
{
    inflector::cases::camelcase::to_camel_case(token)
}

/// Calls `inflector::cases::classcase::to_class_case`, which capitalises the
/// words, runs them together and then puts the last word into its singular by
/// a fixed table of rules.
///
/// Trusted, not proved: the result is a function of the token's characters,
/// and it is empty for the empty token. Nothing more is claimed of it.
#[verifier::external_body]
fn class_case(token: &str) -> (out: String)
    ensures
        out@ == class_case_of(token@),
        token@.len() == 0 ==> out@.len() == 0,
{
    inflector::cases::classcase::to_class_case(token)
}

/// The snake form of a key: the normal form that every converter starts from.
pub open spec fn snake_form(key: Seq<char>) -> Seq<char> {
    snake_case_of(key)
}

/// The dashed form of a key: the kebab case of its snake form.
pub open spec fn dashed_form(key: Seq<char>) -> Seq<char> {
    kebab_case_of(snake_case_of(key))
}

/// The lower camel form of a key: the camel case of its snake form.
pub open spec fn camel_form(key: Seq<char>) -> Seq<char> {
    camel_case_of(snake_case_of(key))
}

/// The Pascal form of a key: the class case of its snake form.
pub open spec fn pascal_form(key: Seq<char>) -> Seq<char> {
    class_case_of(snake_case_of(key))
}

/// Converts a key to PascalCase by way of its snake form. The last word comes
/// out in the singular, as the class case has it.
pub fn to_pascal_case(key: &str) -> (out: String)
    ensures
        out@ == pascal_form(key@),
        key@.len() == 0 ==> out@.len() == 0,
{
    let snake = snake_case(key);
    class_case(snake.as_str())
}

/// Converts a key to camelCase by way of its snake form.
pub fn to_camel_case(key: &str) -> (out: String)
    ensures
        out@ == camel_form(key@),
        key@.len() == 0 ==> out@.len() == 0,
{
    let snake = snake_case(key);
    camel_case(snake.as_str())
}

/// Converts a key to kebab-case by way of its snake form.
pub fn to_dashed_case(key: &str) -> (out: String)
    ensures
        out@ == dashed_form(key@),
        key@.len() == 0 ==> out@.len() == 0,
{
    let snake = snake_case(key);
    kebab_case(snake.as_str())
}

/// Converts a key to snake_case.
pub fn to_snake_case(key: &str) -> (out: String)
    ensures
        out@ == snake_form(key@),
        key@.len() == 0 ==> out@.len() == 0,
{
    snake_case(key)
}

} // verus!
