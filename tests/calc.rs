use fmp_decompiler::calc::decompile_calculation;

fn masked(s: &str) -> Vec<u8> {
    s.bytes().map(|b| b ^ 0x5A).collect()
}

#[test]
fn calc_identifiers_and_plus() {
    let mut code = vec![0x1A, 1];
    code.extend(masked("A"));
    code.push(0x25);
    code.push(0x1A);
    code.push(1);
    code.extend(masked("B"));
    assert_eq!(decompile_calculation(&code), "A+B");
    assert_eq!(decompile_calculation(&code), decompile_calculation(&code));
}

#[test]
fn calc_space_and_operators() {
    let code = [0x04, 0x0C, 0x26, 0x27, 0x28, 0x41, 0x43, 0x44, 0x46, 0x47, 0x49, 0x50, 0x05];
    assert_eq!(decompile_calculation(&code), "( -*/<<===!=>=>&)");
}

#[test]
fn calc_string_literal_quoted() {
    let mut code = vec![0x13, 2];
    code.extend(masked("hi"));
    assert_eq!(decompile_calculation(&code), "\"hi\"");
}

#[test]
fn calc_number_shows_ninth_byte() {
    let mut code = vec![0x10];
    let mut run = vec![0u8; 19];
    run[8] = 42;
    code.extend(run);
    code.push(0x25);
    assert_eq!(decompile_calculation(&code), "42+");
}

#[test]
fn calc_unknown_and_truncated_input() {
    assert_eq!(decompile_calculation(&[]), "");
    assert_eq!(decompile_calculation(&[0xEE, 0x01, 0x99]), "");
    assert_eq!(decompile_calculation(&[0x1A]), "");
    assert_eq!(decompile_calculation(&[0x10, 1, 2]), "");
    let mut code = vec![0x1A, 5];
    code.extend(masked("ab"));
    assert_eq!(decompile_calculation(&code), "ab");
}
