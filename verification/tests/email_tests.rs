use boosty_gate::email::extract_email;

#[test]
fn plain_address_is_extracted_whole() {
    assert_eq!(extract_email("a@b.com"), Some("a@b.com".to_string()));
}

#[test]
fn trailing_text_is_cut_off() {
    assert_eq!(extract_email("user@site.com and more"), Some("user@site.com".to_string()));
    assert_eq!(extract_email("user@site.com!"), Some("user@site.com".to_string()));
}

#[test]
fn longest_domain_wins() {
    assert_eq!(
        extract_email("user.name+tag@my-site.co.uk"),
        Some("user.name+tag@my-site.co.uk".to_string())
    );
    assert_eq!(extract_email("a@b.com.ru"), Some("a@b.com.ru".to_string()));
}

#[test]
fn ending_is_capped_at_six_letters() {
    assert_eq!(extract_email("ab@cd.efghijk"), Some("ab@cd.efghij".to_string()));
}

#[test]
fn upper_case_is_rejected() {
    assert_eq!(extract_email("A@b.com"), None);
    assert_eq!(extract_email("a@B.com"), None);
}

#[test]
fn malformed_heads_are_rejected() {
    assert_eq!(extract_email(""), None);
    assert_eq!(extract_email("@b.com"), None);
    assert_eq!(extract_email(".a@b.com"), None);
    assert_eq!(extract_email("a.@b.com"), None);
    assert_eq!(extract_email("a@"), None);
    assert_eq!(extract_email("a@@b.com"), None);
    assert_eq!(extract_email(" a@b.com"), None);
}

#[test]
fn malformed_domains_are_rejected() {
    assert_eq!(extract_email("a@b.c"), None);
    assert_eq!(extract_email("a@.com"), None);
    assert_eq!(extract_email("a@b..com"), None);
    assert_eq!(extract_email("a@b-.com"), None);
    assert_eq!(extract_email("a@b"), None);
}

#[test]
fn digits_and_hyphens_are_accepted_in_the_domain() {
    assert_eq!(extract_email("u1@my-2nd-site.org"), Some("u1@my-2nd-site.org".to_string()));
}
