use lustre_analyzer::parser;
use lustre_analyzer::grammar::Cursor;

fn array(input: &Vec<char>, at: Cursor) -> bool {
    parser::array(input, at).is_some()
}

fn equations(input: &Vec<char>, at: Cursor) -> bool {
    let (found, semicolons, _) = parser::equations(input, at);
    found.len() == semicolons.len()
}

fn expression(input: &Vec<char>, at: Cursor) -> bool {
    parser::expression(input, at, 5).is_some()
}

fn func_call(input: &Vec<char>, at: Cursor) -> bool {
    parser::func_call(input, at).is_some()
}

fn identifier(input: &Vec<char>, at: Cursor) -> bool {
    parser::identifier(input, at).is_some()
}

fn integer(input: &Vec<char>, at: Cursor) -> bool {
    parser::integer(input, at).is_some()
}

fn bool_parse(input: &Vec<char>, at: Cursor) -> bool {
    parser::bool_parse(input, at).is_some()
}

fn literal(input: &Vec<char>, at: Cursor) -> bool {
    parser::literal(input, at).is_some()
}

fn node(input: &Vec<char>, at: Cursor) -> bool {
    parser::node(input, at).is_some()
}

fn ws(inner: fn(&Vec<char>, Cursor) -> bool) -> impl Fn(&Vec<char>, Cursor) -> bool {
    move |input, at| inner(input, parser::skip_blanks(input, at))
}

fn ok_test(f: impl Fn(&Vec<char>, Cursor) -> bool, input: &str) {
    let chars = parser::chars_of(input);
    if !f(&chars, Cursor::start()) {
        println!(">> input :\n{}", input);
        assert!(false);
    }
}

fn error_test(f: impl Fn(&Vec<char>, Cursor) -> bool, input: &str) {
    let chars = parser::chars_of(input);
    if f(&chars, Cursor::start()) {
        println!(">> input :\n{}", input);
        assert!(false);
    }
}

#[test]
fn empty_array() {
    ok_test(array, "[ ]");
    error_test(array, "[( ]");
    ok_test(array, "[ ]");
    ok_test(array, " [   a     ]");
}
#[test]
fn basic_array() {
    ok_test(array, "[12, a, b, 1234]");
    error_test(array, "[12, a b, 1234]");
    ok_test(array, "        [AZAZHJAKJZB ,kdcdkc, kkjndkjd    ]");
    error_test(array, "        [AZAZHJAKJZB ,kdcdkc kkjndkjd    ]");
    error_test(array, "        [[AZAZHJAKJZB ,kdcdkc kkjndkjd    ]");
    ok_test(array, " [   a     ]");
    error_test(array, " [   a )    ]");
}
#[test]
fn complex_array() {
    ok_test(array, "[12, a, b, 1234, ]");
    ok_test(array, "        [AZAZHJAKJZB ,kdcdkc, kkjndkjd ,    ]");
    error_test(array, "        [AZAZHJAKJZB kdcdkc, kkjndkjd ,    ]");
    error_test(array, "        [AZAZHJAKJZB ,kdcdkc, kkjndkjd ,  ,  ]");
}

#[test]
fn one_equation() {
    ok_test(
        equations,
        "x=5;
            ",
    );
}
#[test]
fn no_equation() {
    ok_test(equations, "");
}
#[test]
fn no_end_comma() {
    // does not manage to parse but does not crash !
    ok_test(equations, "x=5");
}

#[test]
fn basic_addition() {
    ok_test(expression, "a + 2");
    ok_test(expression, " abc + 2");
    error_test(expression, "a + ");
}

#[test]
fn empty_call() {
    ok_test(func_call, "f()");
    ok_test(func_call, " f ( ) ");
    error_test(func_call, " f (  ");
    error_test(func_call, " f  ) ");
}
#[test]
fn two_integers_call() {
    ok_test(func_call, "f(1, 2)");
    ok_test(func_call, " f (3345 , 2 ) ");
    error_test(func_call, " f (2, 1234  ");
    error_test(func_call, " f 234, 123 ) ");
}

#[test]
fn basic_identifier_0() {
    ok_test(identifier, "asvb  rest");
    // ok_test(identifier, "a2_b2");
    // ok_test(identifier, "a_cjdncjdncdj");
    // error_test(identifier, "2a_c");
    // error_test(identifier, "_a_cjncdj");
    // error_test(identifier, "124a_cdj");
}
#[test]
fn basic_identifier_2() {
    ok_test(identifier, "asvb  rest");
    ok_test(identifier, "a2_b2 rest");
    ok_test(identifier, "a_cjdncjdncdj rest");
    error_test(identifier, "2a_c rest");
    ok_test(identifier, "_a_cjncdj rest");
    error_test(identifier, "124a_cdj rest");
}
#[test]
fn basic_integer() {
    ok_test(integer, "23");
    ok_test(integer, "23232392439832");
    error_test(integer, "?!!2134");
    error_test(integer, "abc2134");
}

#[test]
fn basic_bool() {
    ok_test(bool_parse, "true");
    ok_test(bool_parse, "false");
    error_test(bool_parse, "ffalse");
    error_test(bool_parse, "atrue");

    ok_test(ws(bool_parse), "  true ");
    ok_test(
        ws(bool_parse),
        "
            false ",
    );
    ok_test(ws(bool_parse), " falsefalse");
    error_test(ws(bool_parse), " tttrue");
    error_test(ws(bool_parse), "ffalse");
}

#[test]
fn bool_literal() {
    ok_test(ws(literal), "  true ");
    ok_test(
        ws(literal),
        "
            false ",
    );
    ok_test(ws(literal), "falsefalse");
    error_test(ws(literal), " tttrue");
    error_test(ws(literal), "ffalse");
}

#[test]
fn float_literal() {
    ok_test(literal, "0.2345");
    error_test(literal, "abc0.2");
}

#[test]
fn empty_node() {
    ok_test(node, "node f() returns (); let tel");
    ok_test(
        node,
        "#[test]node f() returns ();
            let
            tel
        ",
    );
    ok_test(
        node,
        "
            node f    () returns (  )  ;
            let

            tel
            ",
    );

    error_test(
        node,
        "
            noe f    () returns (  )  ;
            let

            tel
            ",
    );
    error_test(
        node,
        "node f returns ();
            let
            tel",
    );
}
#[test]
fn one_equation_node() {
    ok_test(
        node,
        "node f() returns ();
            let
            x = 4;
            tel
            ",
    );
}
