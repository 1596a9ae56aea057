use lustre_analyzer::parser::lustre_parse;
use lustre_analyzer::shallow_eq::ShallowEq;

fn error_parse(input: &str) {
    if let Ok(res) = lustre_parse(input) {
        println!(">> input : \n{input}");
        println!(">> result : \n{}", res.to_text());
        assert!(false);
    }
}

fn ok_parse(input: &str) {
    let in_parse = match lustre_parse(input) {
        Ok(ast) => ast,
        Err(err) => {
            println!("parsing of the input failed: {:#?}", err);
            panic!();
        }
    };
    let in_parse_display = in_parse.to_text();
    let in_parse_display_parse = match lustre_parse(&in_parse_display) {
        Ok(ast) => ast,
        Err(err) => {
            println!("parsing of what was written out failed: {:#?}", err);
            panic!();
        }
    };
    let mut shallow_eq = ShallowEq::new();
    shallow_eq.walk(&in_parse, &in_parse_display_parse);
    assert!(shallow_eq.is_eq());
    assert_eq!(in_parse_display_parse.to_text(), in_parse_display);
}

fn ok_check(input: &str) {
    ok_parse(input);
    let ast = lustre_parse(input).expect("the program parses");
    let (diags, _) = ast.check();
    if !diags.is_empty() {
        println!("diagnostics should be empty: {:#?}", diags);
        panic!()
    }
}

fn error_check(input: &str) {
    ok_parse(input);
    let ast = lustre_parse(input).expect("the program parses");
    let (diags, _) = ast.check();
    if diags.is_empty() {
        println!("an error was expected, and there is no diagnostic");
        panic!()
    }
}

fn ok_interpretation(input: &str) {
    ok_check(input);
    let ast = lustre_parse(input).expect("the program parses");
    let (const_ast, _) = ast.propagate_const();
    println!(">> Propagate Constant :\n{}", const_ast.to_text());
    for node in const_ast.nodes.iter() {
        if node.is_test() && !node.is_only_true_equations() {
            assert!(false);
        }
    }
}

fn error_interpretation(input: &str) {
    ok_check(input);
    let ast = lustre_parse(input).expect("the program parses");
    let (const_ast, _) = ast.propagate_const();
    println!(">> Propagate Constant :\n{}", const_ast.to_text());
    for node in const_ast.nodes.iter() {
        if node.is_test() && node.is_only_true_equations() {
            assert!(false);
        }
    }
}

#[test]
fn f_no_args_no_equation_ok() {
    ok_parse(
        "
node f() returns ();
let
tel
",
    );
}
#[test]
fn empty_string_ok() {
    ok_parse("");
}
#[test]
fn t15_ok() {
    ok_parse(
        "
node f() returns ( b : int );
let
tel
",
    );
}
#[test]
fn t11_ok() {
    ok_parse(
        "
node f (a: int) returns ( ) ;
let

tel
",
    );
}
#[test]
fn t13_ok() {
    ok_parse(
        "
node f (a: int) returns ( ) ;
let
    x = y;
tel
",
    );
}
#[test]
fn t14_ok() {
    ok_parse(
        "
node f (a: int) returns ( ) ;
let
    x = (y + x);
tel
",
    );
}
#[test]
fn t12_ok() {
    ok_parse(
        "
node f (a: int) returns (b:int) ;
let

tel
",
    );
}

#[test]
fn t2_ok() {
    ok_parse(
        "
node f(i : int) returns (f : float);
let
tel
",
    );
}

#[test]
fn t3_ok() {
    ok_parse(
        "
node f(i : int) returns (f : float);
let
    a = x * x;
    f = 2;
tel
",
    );
}

#[test]
fn t4_ok() {
    ok_parse(
        "
node f(i : int) returns (f : float);
let
    a = x * x;
    f = 2;
tel

node other_function(i: int, a : int) returns (f: float);
let b   = x + x;
c = d;
tel
",
    );
}

#[test]
fn t5_ok() {
    ok_parse(
        "
node f(i : int) returns (f : float);
let
    a = x * x;
    f = 2;
tel

node other_function(i: int, a : int) returns (f: float);
let b   = x + x;
c = d;
tel

node while(i : int) returns (g : int, t : int);
let
    a = x * x;
    f = 2 + 3;
    t = x + x * y + 2;
tel
",
    );
}

#[test]
fn t6_ok() {
    ok_parse(
        "
node f(i1 : int, i2 : int, i3 : float, i4 : char) returns (f : float);
let
    a = x * x;
    f = 2;
tel

node otherfunction(i: int, a : int) returns (f: float);
let b   = x + x;
c = d;
tel

node while(i : int) returns (g : int, t : int);
let
    a = x * x;
    f = 2 + 3;
    t = x + x * y + 2;
tel
",
    );
}
#[test]
fn t7() {
    ok_parse(
        "
node f(i1 : int, i2 : int, i3 : float, i4 : char) returns (f : float);
let
    a = x * x;
    f = 2;
tel

node f(i1 : int, i2 : int, i3 : float, i4 : char) returns (f : float);
let
    a = x * x;
    f = 2;
tel
node otherfunction(i: int, a : int) returns (f: float);
let b   = x + x;
c = d;
tel

node while(i : int) returns (g : int, t : int);
let
    a = x * x;
    f = 2 + 3;
    t = x + x * y + 2;
tel
",
    );
}
#[test]
fn t8_ok() {
    ok_parse(
        "
node f(i1 : int, i2 : int, i3 : float, i4 : char) returns (f : float);
let
    a = x * x;
    f = 2;
tel

node f(i1 : int, i2 : int, i3 : float, i4 : char) returns (f : float);
let
    a = x * x;
    f = 2;
tel
node fu(i1 : int, i2 : int) returns (f: float);
let
    a = x * x;
    f = 2;
tel
",
    );
}

#[test]
fn t9_ok() {
    ok_parse(
        "
node otherfunction(i: int, a : int) returns (f: float);
let b   = x + x;
c = d;
tel

node while(i : int) returns (g : int, t : int);
let
    a = x * x;
    f = 2 + 3;
    t = x + x * y + 2;
tel
",
    )
}

#[test]
fn t10_error() {
    error_parse(
        "
node otherfunction(i: int, a : int) returns (f: float);
let b   = x + x;
c = ;
tel
",
    )
}

#[test]
fn t16_error() {
    error_parse(
        "
node ction( returns (f: float);
let
tel
",
    )
}
#[test]
fn t17_ok() {
    ok_parse(
        "
node f(i : int, i : bool) returns (f: float);
let
    a = 1 + 1 + 1 * 1 + 1 + 1 / 1 - abc;
tel
",
    )
}

#[test]
fn t18_ok() {
    ok_parse(
        "
node    fgaaaaaaa () returns       (x : int);

let      x = (1 + 1 * (1 + 1)) / 4; tel


node   f   () returns (x : int);
let x = 2; tel",
    )
}
#[test]
fn func_call_1_ok() {
    ok_parse(
        "
node f(x: int, y: int, z: bool) returns (a : int);
let
    a = 12;
tel

node g() returns (x : int);
let
    x = f(1, 2, 3);
tel",
    )
}
#[test]
fn func_call_2_ok() {
    ok_parse(
        "
node f(x: int, y: int, z: bool) returns (a : int);
let
    a = 12;
tel

node g() returns (x : int);
let
    y = f(x, x, f(1));
    x = f(1, 2, y);
tel",
    )
}
#[test]
fn func_call_1_error() {
    error_parse(
        "
node f(x: int, y: int, z: bool) returns (a : int);
let
    a = 12;
tel

node g() returns (x : int);
let
    y = f(x, x, f(1));
    x = f(1 2 y);
tel",
    )
}
#[test]
fn func_call_2_error() {
    error_parse(
        "
node f(x: int, y: int, z: bool) returns (a : int);
let
    a = 12;
tel

node g() returns (x : int);
let
    y = f(x, x, f(1);
    x = f(1, 2, y);
tel",
    )
}

#[test]
fn multiple_args_one_type_1_ok() {
    ok_parse(
        "
node id(x, y : int) returns (a, b : int);
let
    a = x;
    b = y;
tel

#[test]
node test() returns (z: bool);
let
    z = has_been_true([false, true, true]) == [false, true, true];        
tel
        ",
    );
}
#[test]
fn multiple_args_one_type_2_ok() {
    ok_parse(
        "
node id(x, y, z : int, a, b : bool) returns (a, b : int);
let
    a = x;
    b = y;
tel

#[test]
node test() returns (z: bool);
let
    z = has_been_true([false, true, true]) == [false, true, true];        
tel
        ",
    );
}
#[test]
fn test_arrow_operator_ok() {
    ok_parse(
        "
node f() returns (z : int);
let
    z = 1 -> pre z;
tel

node g() returns (z : int);
let
    z = 1 -> 2 -> pre z;
tel
        ",
    );
}

#[test]
fn arrow_plus_chain_ok() {
    ok_parse(
        "
node a() returns ();
let
	z = 1 -> (1 -> (x0 + x1));
	z = 1 -> (1 -> (x0 fby x1));
tel",
    );
}
#[test]
fn arrow_chain_ok() {
    ok_parse(
        "
node a() returns ();
let
	z = 1 -> (1 -> (x0 -> x1));
	x = 1 -> 2 -> 3;
tel",
    );
}
#[test]
fn chain_operator_1_ok() {
    ok_parse(
        "
node a() returns ();
let
	z = (1 -> (1 + 3) -> x0 + z) -> x1;
tel",
    );
}
#[test]
fn chain_operator_2_ok() {
    ok_parse(
        "
node a() returns ();
let
	z = 1 -> (1 -> (x0 fby x1));
tel",
    );
}
#[test]
fn chain_operator_3_ok() {
    ok_parse(
        "
node a() returns ();
let
	z = 1 + (1 -> (x0 fby x1));
tel",
    );
}

#[test]
fn test1_ok() {
    ok_check(
        "
node f() returns();
let
tel
",
    )
}
#[test]
fn test2_ok() {
    ok_check(
        "
node f(x: int) returns(z: int);
let
    z = x;
tel
",
    )
}
#[test]
fn test3_error() {
    error_check(
        "
node f(x: int, x : int) returns(z: int);
let
    z = x;
tel
",
    )
}

#[test]
fn test4_error() {
    error_check(
        "
node f(x: int) returns(z: int);
let
    z = 2 + a;
tel
",
    )
}
#[test]
fn test5_error() {
    error_check(
        "
node f(x: int) returns(z: int);
let
    z = 2 + true;
tel
",
    )
}
#[test]
fn test6_error() {
    ok_check(
        "
node f(x: int) returns(z: int);
let
    z = x + 10;
tel
",
    )
}
#[test]
fn test7_ok() {
    ok_check(
        "
node f(x: int) returns(z: int, y: bool);
let
    a = x + 5;
    z = a + x + 10;
    y = true;
tel
",
    )
}
#[test]
fn test8_ok() {
    ok_check(
        "

node f(x: int) returns(z: int);
let
    a = x + 5;
    z = a + x + 10;
tel
node g(y: int) returns (x: bool);
let
    a = 11234 + f(y);
    x = f(2) == f(a);
tel
",
    )
}
#[test]
fn id_ok() {
    ok_check(
        "

node id() returns(z: int);
let
    z = 0 fby z;
tel
",
    )
}

#[test]
fn fibonacci_1_error() {
    error_check(
        "
node fibo() returns (x : int);
let
    x = 1 fby x + (1 fby (1 fby x)); 
tel

#[test]
node verify_5_first_value() returns (z: bool);
let
    z = fibo([(), (), (), (), ()]) == [false, true, true, true, true];        
tel
        ",
    );
}

#[test]
fn fibonacci_4_error() {
    error_check(
        "
node fibo() returns (z : int);
let
	x0 = pre z;
	x1 = pre pre z;
	add = x0 + x1;
	z = 1 -> (1 -> add);
tel

#[test]
node test2() returns (z : bool);
let
	lhs = fibo([(), (), (), ()]);
	rhs = [2, 4, 6];
	z = lhs == rhs;
tel",
    );
}

#[test]
fn double_ok() {
    ok_interpretation(
        "
node incr(i : int) returns (o : int);
let
    o = i + 1;
tel
#[test]
node test() returns (z : bool);
let
    lhs = incr([1, 2, 3, 4, 5]);
    rhs = [2, 3, 4, 5, 6];
    z = lhs == rhs;
tel
",
    );
}
#[test]
fn double_error() {
    error_interpretation(
        "
node double(x : int) returns (z : int);
let
	z = x + x;
tel

#[test]
node test() returns (b : bool);
let
	lhs = double([1, 2, 3]);
	rhs = [2, 4, -7];
	b = lhs == rhs;
tel",
    );
}
#[test]
fn triple_ok() {
    ok_interpretation(
        "
node triple_and_incr(i : int) returns (o : int);
let
    o = 1 + i * 3;
tel
#[test]
node test() returns (z : bool);
let
    lhs = triple_and_incr([1, 2, 3]);
    rhs = [4, 7, 10];
    z = lhs == rhs;
tel
",
    );
}
#[test]
fn triple_error() {
    error_interpretation(
        "
node triple_and_incr(i : int) returns (o : int);
let
    o = 1 + i * 3;
tel
#[test]
node test() returns (z : bool);
let
    lhs = triple_and_incr([1, 2, 3]);
    rhs = [4, 7, 9];
    z = lhs == rhs;
tel
",
    );
}

#[test]
fn integer_operation_propagate_no_test_ok() {
    ok_interpretation(
        "
node f() returns (x : int);
let
    z = 12 / 2;
    x = (1 + 12) * 23 + z + 23 - 6; 
tel",
    );
}
#[test]
fn fibonacci_1_ok() {
    ok_interpretation(
        "
node fibo() returns (x : int);
let
    x = 1 fby x + (1 fby (1 fby x)); 
tel

#[test]
node verify_5_first_value() returns (z: bool);
let
    z = fibo([(), (), (), (), ()]) == [2, 3, 5, 8, 13];        
tel
        ",
    );
}
#[test]
fn fibonacci_11_ok() {
    ok_interpretation(
        "
node fibo() returns (x : int);
let
	x_1 = 1 -> pre x;
	x_0 = 1 -> pre x_1;
	x = x_0 + x_1;
tel

#[test]
node verify_5_first_value() returns (z : bool);
let
	z = fibo([(), (), (), (), ()]) == [2, 3, 5, 8, 13];
tel",
    );
}
#[test]
fn fibonacci_12_ok() {
    error_interpretation(
        "
node fibo() returns (x : int);
let
	x_1 = 1 -> pre x;
	x_0 = 1 -> pre x_1;
	x = x_0 + x_1;
tel

#[test]
node verify_5_first_value() returns (z : bool);
let
	z = fibo([(), (), (), (), ()]) == [3, 3, 5, 8, 13];
tel",
    );
}
#[test]
fn fibonacci_2_ok() {
    ok_interpretation(
        "
node fibo() returns (x : int);
let
    x_1 = 1 fby x;
    x_0 = 1 fby x_1; 
    x = x_0 + x_1; 
tel

#[test]
node verify_5_first_value() returns (z: bool);
let
    z = fibo([(), (), (), (), ()]) == [2, 3, 5, 8, 13];        
tel
        ",
    );
}
#[test]
fn fibonacci_3_ok() {
    ok_interpretation(
        "
node fibo() returns (x : int);
let
    x_1 = 1 fby x;
    x_0 = 1 fby x_1; 
    x = x_0 + x_1; 
tel

#[test]
node verify_5_first_value() returns (z: bool);
let
    lhs =  fibo([(), (), (), (), ()]);
    rhs = [2, 3, 5, 8, 13];
    z = lhs == rhs;        
tel
        ",
    );
}

#[test]
fn has_been_true_ok() {
    ok_interpretation(
        "
node has_been_true(a : bool) returns (z: bool);
let
    z = (false fby z) or a;
tel

#[test]
node test() returns (z: bool);
let
    z = has_been_true([false, true, true, false, false, true]) ==
                      [false, true, true, true, true, true];        
tel
        ",
    );
}

#[test]
fn cst_ok() {
    ok_interpretation(
        "
node cst() returns (z: int);
let
    z = 12 fby z;
tel
#[test]
node test() returns (z: bool);
let
    lhs = cst([(), (), ()]);
    rhs = [12, 12, 12];
    z = lhs == rhs;
tel
            ",
    );
}
#[test]
fn id_error() {
    error_interpretation(
        "
node cst() returns (z: int);
let
    z = 12 fby z;
tel
#[test]
node test() returns (z: bool);
let
    lhs = cst([(), (), ()]);
    rhs = [12, 13, 12];
    z = lhs == rhs;
tel
            ",
    );
}
#[test]
fn id_two_var_ok() {
    ok_interpretation(
        "
node id(x, y: int) returns (a, b: int);
let
    a = x;
    b = y;
tel
#[test]
node test() returns (b : bool);
let
    lhs = ([1, 2, 3, 4], [2, 4, 6, 8]);
    rhs = id([1, 2, 3, 4], [2, 4, 6, 8]);
    b = lhs == rhs;
tel
            ",
    );
}
#[test]
fn swith_ok() {
    error_check(
        "
node switch(x, y : int) returns (a, b : int);
let
    a = y;
    b = x;
tel

#[test]
node test() returns (z: bool);
let
    lhs = ([2, 4, 6, 8], [1, 2, 3, 4]);
    rhs = id([1, 2, 3, 4], [2, 4, 6, 8]);
    b = lhs == rhs;
tel
",
    );
}

#[test]
fn time_0_ok() {
    ok_interpretation(
        "
node time() returns (z : int);
let
    z = 0 fby (z + 1);
tel

#[test]
node test() returns (z: bool);
let
    lhs = [0, 1, 2, 3, 4, 5];
    rhs = time([(), (), (), (), (), ()]);
    z = lhs == rhs;
tel
    ",
    )
}
#[test]
fn time_1_ok() {
    ok_interpretation(
        "
node time() returns (z : int);
let
    z = (0 fby z) + 1;
tel

#[test]
node test() returns (z: bool);
let
    lhs = [1, 2, 3, 4, 5];
    rhs = time([(), (), (), (), ()]);
    z = lhs == rhs;
tel
    ",
    )
}
#[test]
fn time_2_ok() {
    ok_interpretation(
        "
node time() returns (z : int);
let
    z = 0 fby (z + 1);
tel

node time_call() returns (z : int);
let
    z = time();
tel

#[test]
node test() returns (z: bool);
let
    lhs = [0, 1, 2, 3, 4, 5];
    rhs = time_call([(), (), (), (), (), ()]);
    z = lhs == rhs;
tel
    ",
    )
}

#[test]
fn time_3_ok() {
    ok_interpretation(
        "
node time() returns (z : int);
let
    z = 0 fby z + 1;
tel

node time_call() returns (z : int);
let
    z = time();
tel

#[test]
node test() returns (z: bool);
let
    lhs = [1, 2, 3, 4, 5, 6];
    rhs = time_call([(), (), (), (), (), ()]);
    z = lhs == rhs;
tel
    ",
    )
}
