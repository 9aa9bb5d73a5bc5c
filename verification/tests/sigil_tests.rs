use exo_self::sigil::compress;

#[test]
fn test_compress_basic() {
    assert_eq!(compress("the original text"), "THEORIGnalx".to_uppercase());
}

#[test]
fn test_compress_preserves_order() {
    let result = compress("hello world");
    assert_eq!(result, "HELOWRD");
}

#[test]
fn test_compress_case_insensitive() {
    let result = compress("AaBbCc");
    assert_eq!(result, "ABC");
}

#[test]
fn test_compress_strips_non_alpha() {
    let result = compress("h3ll0 w0rld!");
    assert_eq!(result, "HLWRD");
}

#[test]
fn test_compress_empty() {
    assert_eq!(compress(""), "");
    assert_eq!(compress("123 !@#"), "");
}

#[test]
fn test_compress_rough_clay() {
    let result = compress("Rough clay holds water that porcelain spills");
    assert_eq!(result, "ROUGHCLAYDSWTEPIN");
}

#[test]
fn compress_is_idempotent_on_example() {
    let once = compress("Rough clay holds water that porcelain spills");
    assert_eq!(compress(&once), once);
}

#[test]
fn compress_ignores_non_ascii_letters() {
    assert_eq!(compress("éa"), "A");
}
