use pycall::literal::AsPythonLitteral;
use pycall::literal::Value;
use pycall::literal::render_i128;
use pycall::literal::render_i64;
use pycall::literal::render_text;
use pycall::literal::render_u128;
use pycall::literal::render_u64;

#[test]
fn renders_zero() {
    assert_eq!(render_u64(0), "0");
    assert_eq!(render_i64(0), "0");
}

#[test]
fn renders_positive_integers() {
    assert_eq!(render_u64(7), "7");
    assert_eq!(render_u64(12345), "12345");
    assert_eq!(render_u64(1000000), "1000000");
}

#[test]
fn renders_negative_integers() {
    assert_eq!(render_i64(-1), "-1");
    assert_eq!(render_i64(-987), "-987");
}

#[test]
fn renders_integer_extremes() {
    assert_eq!(render_u64(u64::MAX), "18446744073709551615");
    assert_eq!(render_i64(i64::MIN), "-9223372036854775808");
    assert_eq!(render_i64(i64::MAX), "9223372036854775807");
    assert_eq!(render_u128(u128::MAX), "340282366920938463463374607431768211455");
    assert_eq!(render_i128(i128::MIN), "-170141183460469231731687303715884105728");
}

#[test]
fn integer_trait_impls_agree() {
    assert_eq!(42u8.to_literal(), "42");
    assert_eq!(42u16.to_literal(), "42");
    assert_eq!(42u32.to_literal(), "42");
    assert_eq!(42u64.to_literal(), "42");
    assert_eq!(42u128.to_literal(), "42");
    assert_eq!(42usize.to_literal(), "42");
    assert_eq!((-42i8).to_literal(), "-42");
    assert_eq!((-42i16).to_literal(), "-42");
    assert_eq!((-42i32).to_literal(), "-42");
    assert_eq!((-42i64).to_literal(), "-42");
    assert_eq!((-42i128).to_literal(), "-42");
    assert_eq!((-42isize).to_literal(), "-42");
}

#[test]
fn renders_text_triple_quoted() {
    assert_eq!(render_text("hello"), "\"\"\"hello\"\"\"");
    assert_eq!(render_text(""), "\"\"\"\"\"\"");
    assert_eq!(String::from("a b").to_literal(), "\"\"\"a b\"\"\"");
}

#[test]
fn renders_value_scalars() {
    assert_eq!(Value::Int(-3).render(), "-3");
    assert_eq!(Value::Int(0).render(), "0");
    assert_eq!(Value::UInt(250).render(), "250");
    assert_eq!(Value::Text(String::from("hi")).render(), "\"\"\"hi\"\"\"");
}

#[test]
fn renders_empty_containers() {
    assert_eq!(Value::List(vec![]).render(), "[]");
    assert_eq!(Value::Dict(vec![]).render(), "{}");
}

#[test]
fn renders_list_with_trailing_commas() {
    let v = Value::List(vec![Value::Int(1), Value::Int(2), Value::Int(3)]);
    assert_eq!(v.render(), "[1,2,3,]");
}

#[test]
fn renders_nested_list() {
    let inner = Value::List(vec![Value::Int(2)]);
    let v = Value::List(vec![Value::Int(1), Value::Text(String::from("a")), inner]);
    assert_eq!(v.render(), "[1,\"\"\"a\"\"\",[2,],]");
}

#[test]
fn renders_dict_in_insertion_order() {
    let v = Value::Dict(vec![
        (String::from("a"), Value::Int(1)),
        (String::from("b"), Value::UInt(2)),
    ]);
    assert_eq!(v.render(), "{\"\"\"a\"\"\":1,\"\"\"b\"\"\":2,}");
}

#[test]
fn renders_dict_with_nested_list() {
    let v = Value::Dict(vec![(
        String::from("xs"),
        Value::List(vec![Value::Int(-1), Value::Int(1)]),
    )]);
    assert_eq!(v.render(), "{\"\"\"xs\"\"\":[-1,1,],}");
}

#[test]
fn renders_generic_vectors() {
    assert_eq!(vec![1i32, 2, 3].to_literal(), "[1,2,3,]");
    assert_eq!(vec![-5i64, 0, 5].to_literal(), "[-5,0,5,]");
    let empty: Vec<u8> = vec![];
    assert_eq!(empty.to_literal(), "[]");
    let nested = vec![vec![1u8], vec![2u8, 3u8]];
    assert_eq!(nested.to_literal(), "[[1,],[2,3,],]");
    let words = vec![String::from("x")];
    assert_eq!(words.to_literal(), "[\"\"\"x\"\"\",]");
}

#[test]
fn renders_str_triple_quoted() {
    assert_eq!("hello".to_literal(), "\"\"\"hello\"\"\"");
}

#[test]
fn renders_slices() {
    let xs: &[u16] = &[4, 5];
    assert_eq!(xs.to_literal(), "[4,5,]");
}
