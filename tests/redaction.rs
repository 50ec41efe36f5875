use pii_gateway::redact::redact;

const MARK: &str = "[DADO PROTEGIDO]";

fn sanitized(s: &str) -> String {
    redact(s).sanitized
}

#[test]
fn email_is_replaced() {
    let r = redact("contact me at joao@example.com");
    assert!(r.contains_pii);
    assert_eq!(r.sanitized, "contact me at [DADO PROTEGIDO]");
}

#[test]
fn uppercase_email_is_replaced() {
    let r = redact("write to JOAO.SILVA+news@Mail.Example.PT please");
    assert!(r.contains_pii);
    assert_eq!(r.sanitized, "write to [DADO PROTEGIDO] please");
}

#[test]
fn email_top_level_domain_takes_at_most_four_letters() {
    assert_eq!(sanitized("a@b.comxyz"), format!("{}yz", MARK));
}

#[test]
fn email_needs_two_letter_top_level_domain() {
    let r = redact("a@b.c");
    assert!(!r.contains_pii);
    assert_eq!(r.sanitized, "a@b.c");
}

#[test]
fn email_domain_is_as_long_as_possible() {
    assert_eq!(sanitized("x@mail.example.co.uk!"), format!("{}!", MARK));
}

#[test]
fn phone_with_country_code_and_space() {
    let r = redact("liga +351 912345678 hoje");
    assert!(r.contains_pii);
    assert_eq!(r.sanitized, "liga [DADO PROTEGIDO] hoje");
}

#[test]
fn phone_with_country_code_without_plus_or_space() {
    assert_eq!(sanitized("tel 351961234567"), format!("tel {}", MARK));
}

#[test]
fn bare_nine_digits_are_replaced() {
    let r = redact("NIF 123456789.");
    assert!(r.contains_pii);
    assert_eq!(r.sanitized, "NIF [DADO PROTEGIDO].");
}

#[test]
fn mobile_number_alone_is_replaced() {
    assert_eq!(sanitized("912345678"), MARK);
}

#[test]
fn eight_or_ten_digits_are_kept() {
    let r = redact("codes 12345678 and 1234567890");
    assert!(!r.contains_pii);
    assert_eq!(r.sanitized, "codes 12345678 and 1234567890");
}

#[test]
fn nine_digits_next_to_letters_are_replaced() {
    let r = redact("x123456789");
    assert!(r.contains_pii);
    assert_eq!(r.sanitized, format!("x{}", MARK));
    assert_eq!(sanitized("ref_123456789a"), format!("ref_{}a", MARK));
}

#[test]
fn mobile_without_country_code_inside_text_is_replaced() {
    let r = redact("x912345678y");
    assert!(r.contains_pii);
    assert_eq!(r.sanitized, format!("x{}y", MARK));
}

#[test]
fn non_ascii_digits_are_not_digits() {
    let r = redact("\u{ff11}\u{ff12}\u{ff13}\u{ff14}\u{ff15}\u{ff16}\u{ff17}\u{ff18}\u{ff19}");
    assert!(!r.contains_pii);
}

#[test]
fn iban_is_replaced() {
    let r = redact("IBAN PT50000201231234567890154 ok");
    assert!(r.contains_pii);
    assert_eq!(r.sanitized, "IBAN [DADO PROTEGIDO] ok");
}

#[test]
fn lowercase_iban_is_replaced() {
    assert_eq!(sanitized("de89370400440532013000"), MARK);
}

#[test]
fn iban_takes_at_most_thirty_after_the_check_digits() {
    let tail = "A".repeat(35);
    let input = format!("PT50{}", tail);
    assert_eq!(sanitized(&input), format!("{}AAAAA", MARK));
}

#[test]
fn every_match_is_replaced() {
    let r = redact("a@b.pt, 123456789 and +351 931234567");
    assert!(r.contains_pii);
    assert_eq!(r.sanitized, format!("{}, {} and {}", MARK, MARK, MARK));
}

#[test]
fn clean_text_is_unchanged() {
    let r = redact("hello, how are you?");
    assert!(!r.contains_pii);
    assert_eq!(r.sanitized, "hello, how are you?");
}

#[test]
fn empty_text_is_clean() {
    let r = redact("");
    assert!(!r.contains_pii);
    assert_eq!(r.sanitized, "");
}

#[test]
fn non_ascii_text_is_kept() {
    let r = redact("olá, ligação à Ana às 9h");
    assert!(!r.contains_pii);
    assert_eq!(r.sanitized, "olá, ligação à Ana às 9h");
}

#[test]
fn placeholder_is_clean() {
    let r = redact(MARK);
    assert!(!r.contains_pii);
    assert_eq!(r.sanitized, MARK);
}

#[test]
fn redacting_sanitized_text_again_keeps_it() {
    let once = sanitized("mail joao@example.com, NIF 123456789, IBAN PT50000201231234567890154");
    let twice = redact(&once);
    assert!(!twice.contains_pii);
    assert_eq!(twice.sanitized, once);
}

#[test]
fn second_pass_finds_digits_freed_by_the_first() {
    let once = sanitized("+351912345678123456789");
    assert_eq!(once, format!("{}123456789", MARK));
    let twice = redact(&once);
    assert!(twice.contains_pii);
    assert_eq!(twice.sanitized, format!("{}{}", MARK, MARK));
}

#[test]
fn email_followed_by_digits_is_stable() {
    let once = sanitized("a@b.cd123456789");
    let twice = redact(&once);
    assert!(!twice.contains_pii);
    assert_eq!(twice.sanitized, once);
}
