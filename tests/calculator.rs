use rgrep::calculator::{get_result, parse_num_input, parse_operator, Operator};

#[test]
fn test_parse_num_input_decimal() {
    assert_eq!(parse_num_input("42"), Ok(42));
}

#[test]
fn test_parse_num_input_hexadecimal() {
    assert_eq!(parse_num_input("0x2A"), Ok(42));
}

#[test]
fn test_parse_num_input_binary() {
    assert_eq!(parse_num_input("0b101010"), Ok(42));
}

#[test]
fn test_parse_num_input_invalid() {
    assert!(parse_num_input("invalid").is_err());
}

#[test]
fn test_parse_operator_and() {
    assert_eq!(parse_operator("&"), Operator::And);
    assert_eq!(parse_operator("AND"), Operator::And);
    assert_eq!(parse_operator("and"), Operator::And);
}

#[test]
fn test_parse_operator_or() {
    assert_eq!(parse_operator("|"), Operator::Or);
    assert_eq!(parse_operator("OR"), Operator::Or);
    assert_eq!(parse_operator("or"), Operator::Or);
}

#[test]
fn test_parse_operator_xor() {
    assert_eq!(parse_operator("^"), Operator::Xor);
    assert_eq!(parse_operator("XOR"), Operator::Xor);
    assert_eq!(parse_operator("xor"), Operator::Xor);
}

#[test]
fn test_parse_operator_invalid() {
    assert_eq!(parse_operator("invalid"), Operator::Invalid);
    assert_eq!(parse_operator("42"), Operator::Invalid);
}

#[test]
fn test_get_result_and() {
    assert_eq!(
        get_result(Operator::And, 5, 3),
        "The result of 5 & 3 is 1".to_string()
    );
}

#[test]
fn test_get_result_or() {
    assert_eq!(
        get_result(Operator::Or, 5, 3),
        "The result of 5 | 3 is 7".to_string()
    );
}

#[test]
fn test_get_result_xor() {
    assert_eq!(
        get_result(Operator::Xor, 5, 3),
        "The result of 5 ^ 3 is 6".to_string()
    );
}

#[test]
fn test_get_result_invalid() {
    assert_eq!(
        get_result(Operator::Invalid, 5, 3),
        "Invalid operator. Try again.".to_string()
    );
}

#[test]
fn parse_num_input_signs_and_limits() {
    assert_eq!(parse_num_input("-17"), Ok(-17));
    assert_eq!(parse_num_input("+17"), Ok(17));
    assert_eq!(parse_num_input("2147483647"), Ok(i32::MAX));
    assert_eq!(parse_num_input("-2147483648"), Ok(i32::MIN));
    assert!(parse_num_input("2147483648").is_err());
    assert!(parse_num_input("").is_err());
    assert!(parse_num_input("-").is_err());
    assert!(parse_num_input(" 42").is_err());
    assert_eq!(parse_num_input("0xff"), Ok(255));
    assert_eq!(parse_num_input("0x-1"), Ok(-1));
    assert!(parse_num_input("0b102").is_err());
    assert!(parse_num_input("0x").is_err());
}

#[test]
fn get_result_negative_operands() {
    assert_eq!(
        get_result(Operator::And, -1, 12),
        "The result of -1 & 12 is 12".to_string()
    );
    assert_eq!(
        get_result(Operator::Xor, i32::MIN, 0),
        "The result of -2147483648 ^ 0 is -2147483648".to_string()
    );
    assert_eq!(
        get_result(Operator::Or, 0, 0),
        "The result of 0 | 0 is 0".to_string()
    );
}

#[test]
fn parse_operator_mixed_case() {
    assert_eq!(parse_operator("XoR"), Operator::Xor);
    assert_eq!(parse_operator(" and"), Operator::Invalid);
}
