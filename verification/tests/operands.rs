use pic_asm::error::{AsmError, InvalidNumber, SyntaxError, UndefinedLabel};
use pic_asm::operand::{find_register, get_num, parse_number};
use pic_asm::symbols::SymbolTable;
use pic_asm::text::to_chars;

#[test]
fn numeric_literals() {
    let table = SymbolTable::new();
    assert_eq!(get_num("0x1F", &table), Ok(31));
    assert_eq!(get_num("0o17", &table), Ok(15));
    assert_eq!(get_num("0b101", &table), Ok(5));
    assert_eq!(get_num("'A'", &table), Ok(65));
    assert_eq!(get_num("42", &table), Ok(42));
}

#[test]
fn hexadecimal_digits_in_either_case() {
    let table = SymbolTable::new();
    assert_eq!(get_num("0xff", &table), Ok(255));
    assert_eq!(get_num("0xFF", &table), Ok(255));
    assert_eq!(get_num("0xaB", &table), Ok(171));
}

#[test]
fn quoted_character_is_its_code_point() {
    let table = SymbolTable::new();
    assert_eq!(get_num("' '", &table), Ok(32));
    assert_eq!(get_num("'''", &table), Ok(39));
    assert_eq!(get_num("'\u{e9}'", &table), Ok(0xE9));
    assert_eq!(get_num("'\u{1F600}'", &table), Ok(0x1F600));
}

#[test]
fn leading_zeros() {
    let table = SymbolTable::new();
    assert_eq!(get_num("0", &table), Ok(0));
    assert_eq!(get_num("00", &table), Ok(0));
    assert_eq!(get_num("007", &table), Ok(7));
    assert_eq!(get_num("01", &table), Ok(1));
    assert_eq!(get_num("012", &table), Err(AsmError::Syntax(SyntaxError { line: 0 })));
    assert_eq!(get_num("00x1", &table), Err(AsmError::InvalidNumber(InvalidNumber("00x1".into()))));
}

#[test]
fn prefix_without_digits() {
    let table = SymbolTable::new();
    assert_eq!(get_num("0x", &table), Err(AsmError::InvalidNumber(InvalidNumber("0x".into()))));
    assert_eq!(get_num("0z", &table), Err(AsmError::InvalidNumber(InvalidNumber("0z".into()))));
    assert_eq!(get_num("0z1", &table), Err(AsmError::Syntax(SyntaxError { line: 0 })));
    assert_eq!(get_num("0\u{e9}", &table), Err(AsmError::Syntax(SyntaxError { line: 0 })));
    assert_eq!(get_num("0X1F", &table), Err(AsmError::Syntax(SyntaxError { line: 0 })));
}

#[test]
fn sign_after_a_prefix() {
    let table = SymbolTable::new();
    assert_eq!(get_num("0x+1F", &table), Ok(31));
    assert_eq!(get_num("0x+", &table), Err(AsmError::InvalidNumber(InvalidNumber("0x+".into()))));
    assert_eq!(get_num("0x-1", &table), Err(AsmError::InvalidNumber(InvalidNumber("0x-1".into()))));
    assert_eq!(
        get_num("0x++1", &table),
        Err(AsmError::InvalidNumber(InvalidNumber("0x++1".into())))
    );
}

#[test]
fn digits_outside_the_base() {
    let table = SymbolTable::new();
    assert_eq!(get_num("0b102", &table), Err(AsmError::InvalidNumber(InvalidNumber("0b102".into()))));
    assert_eq!(get_num("0o18", &table), Err(AsmError::InvalidNumber(InvalidNumber("0o18".into()))));
    assert_eq!(get_num("1_000", &table), Err(AsmError::InvalidNumber(InvalidNumber("1_000".into()))));
}

#[test]
fn largest_number_and_the_one_after_it() {
    let table = SymbolTable::new();
    let max = usize::MAX.to_string();
    assert_eq!(get_num(&max, &table), Ok(usize::MAX));
    let hex = format!("0x{:x}", usize::MAX);
    assert_eq!(get_num(&hex, &table), Ok(usize::MAX));
    let over = format!("{}0", max);
    assert_eq!(get_num(&over, &table), Err(AsmError::InvalidNumber(InvalidNumber(over.clone()))));
    let over = format!("0x1{:x}", usize::MAX);
    assert_eq!(get_num(&over, &table), Err(AsmError::InvalidNumber(InvalidNumber(over.clone()))));
}

#[test]
fn registers() {
    let table = SymbolTable::new();
    let expected = [
        ("INDF", 0),
        ("TMR0", 1),
        ("PCL", 2),
        ("STATUS", 3),
        ("FSR", 4),
        ("OSCCAL", 5),
        ("GPIO", 6),
        ("GPIOB", 6),
        ("GOIPC", 7),
    ];
    for (name, address) in expected {
        assert_eq!(get_num(name, &table), Ok(address));
        assert_eq!(find_register(&to_chars(name)), Some(address));
    }
    assert_eq!(find_register(&to_chars("gpio")), None);
    assert_eq!(get_num("status", &table), Err(AsmError::UndefinedLabel(UndefinedLabel("status".into()))));
}

#[test]
fn register_comes_before_a_label_of_its_name() {
    let mut table = SymbolTable::new();
    table.insert("FSR", 100);
    table.insert("fsr", 200);
    assert_eq!(get_num("FSR", &table), Ok(4));
    assert_eq!(get_num("fsr", &table), Ok(200));
}

#[test]
fn labels() {
    let mut table = SymbolTable::new();
    assert_eq!(table.get("start"), None);
    table.insert("start", 0);
    table.insert("end", 17);
    assert_eq!(get_num("start", &table), Ok(0));
    assert_eq!(get_num("end", &table), Ok(17));
    assert_eq!(table.get("end"), Some(17));
    table.insert("end", 18);
    assert_eq!(table.get("end"), Some(18));
    assert_eq!(table.get("start"), Some(0));
    assert_eq!(
        get_num("nowhere", &table),
        Err(AsmError::UndefinedLabel(UndefinedLabel("nowhere".into())))
    );
}

#[test]
fn label_that_starts_with_a_digit_is_never_found() {
    let mut table = SymbolTable::new();
    table.insert("1st", 9);
    assert_eq!(get_num("1st", &table), Err(AsmError::InvalidNumber(InvalidNumber("1st".into()))));
}

#[test]
fn numbers_agree_with_the_standard_parser() {
    let samples = [
        "", "+", "-", "0", "1", "+1", "-1", "++1", "12", "1f", "1F", "fF", "zz", "Zz", "10",
        "101", "777", "778", "9", "a", "g", "G", " 1", "1 ", "1_0", "\u{663}", "18446744073709551615",
        "18446744073709551616", "4294967295", "4294967296", "ffffffffffffffff", "10000000000000000",
        "+ffffffffffffffff", "00000000000000000000000000000000000000001",
    ];
    for radix in [2usize, 8, 10, 16, 36] {
        for s in samples {
            let expected = usize::from_str_radix(s, radix as u32).ok();
            assert_eq!(parse_number(&to_chars(s), 0, radix), expected, "{:?} in base {}", s, radix);
        }
    }
}
