use zero2prod::domain::SubscriberUsername;

#[test]
fn a_256_grapheme_long_name_is_valid() {
    let name = "a".repeat(256);
    assert!(SubscriberUsername::parse(name).is_ok());
}

#[test]
fn a_name_longer_than_256_graphemes_is_rejected() {
    let name = "a".repeat(257);
    assert!(SubscriberUsername::parse(name).is_err());
}

#[test]
fn whitespace_only_names_are_rejected() {
    let name = " ".to_string();
    assert!(SubscriberUsername::parse(name).is_err());
}

#[test]
fn empty_string_is_rejected() {
    let name = "".to_string();
    assert!(SubscriberUsername::parse(name).is_err());
}

#[test]
fn names_containing_an_invalid_character_are_rejected() {
    for name in &['/', '(', ')', '"', '<', '>', '\\', '{', '}'] {
        let name = name.to_string();
        assert!(SubscriberUsername::parse(name).is_err());
    }
}

#[test]
fn a_valid_name_is_parsed_successfully() {
    let name = "Ursula Le Guin".to_string();
    assert!(SubscriberUsername::parse(name).is_ok());
}

#[test]
fn a_name_of_256_clusters_of_two_characters_is_valid() {
    let name = "e\u{301}".repeat(256);
    assert_eq!(name.chars().count(), 512);
    assert!(SubscriberUsername::parse(name).is_ok());
}

#[test]
fn a_name_of_257_clusters_is_rejected() {
    let name = "e\u{301}".repeat(257);
    assert!(SubscriberUsername::parse(name).is_err());
}

#[test]
fn a_rejected_name_gives_the_message() {
    let r = SubscriberUsername::parse("a/b".to_string());
    assert_eq!(r, Err("a/b is not a valid subscriber name.".to_string()));
}

#[test]
fn names_of_other_white_space_are_rejected() {
    for name in ["\t", "\n \r", "\u{a0}", "\u{2003}\u{3000}", "\u{85}\u{1680}\u{2028}\u{2029}\u{202f}\u{205f}"] {
        assert!(SubscriberUsername::parse(name.to_string()).is_err(), "{:?}", name);
    }
}

#[test]
fn a_name_with_white_space_around_it_is_kept_as_it_is() {
    let name = SubscriberUsername::parse(" le guin ".to_string()).unwrap();
    assert_eq!(name.as_str(), " le guin ");
}

#[test]
fn white_space_and_forbidden_characters_are_told_apart() {
    assert!(zero2prod::domain::char_is_whitespace(' '));
    assert!(zero2prod::domain::char_is_whitespace('\u{200a}'));
    assert!(!zero2prod::domain::char_is_whitespace('\u{200b}'));
    assert!(!zero2prod::domain::char_is_whitespace('a'));
    assert!(zero2prod::domain::char_is_forbidden('\\'));
    assert!(!zero2prod::domain::char_is_forbidden('-'));
}

#[test]
fn the_count_of_clusters_decides_beside_the_characters() {
    assert!(zero2prod::domain::name_is_acceptable("guin", 256));
    assert!(!zero2prod::domain::name_is_acceptable("guin", 257));
    assert!(!zero2prod::domain::name_is_acceptable("  ", 2));
    assert!(!zero2prod::domain::name_is_acceptable("g{", 2));
}

#[test]
fn addresses_with_one_at_sign_between_two_parts_are_valid() {
    for address in ["a@x.com", "ursula_le_guin@gmail.com", "a@b", "first.last+tag@sub.domain.org"] {
        assert!(zero2prod::domain::check_email(address), "{}", address);
        let parsed = zero2prod::domain::SubscriberEmail::parse(address.to_string()).unwrap();
        assert_eq!(parsed.as_str(), address);
    }
}

#[test]
fn malformed_addresses_are_rejected() {
    for address in ["", "ursuladomain.com", "@domain.com", "ursula@", "a@b@c", "a b@x.com", "a@x.com\n", "é@x.com", "@"] {
        assert!(!zero2prod::domain::check_email(address), "{:?}", address);
        assert!(zero2prod::domain::SubscriberEmail::parse(address.to_string()).is_err());
    }
}

#[test]
fn a_rejected_address_gives_the_message() {
    let r = zero2prod::domain::SubscriberEmail::parse("ursuladomain.com".to_string());
    assert_eq!(r, Err("ursuladomain.com is not a valid subscriber email.".to_string()));
}

#[test]
fn a_new_subscriber_needs_a_valid_address_and_a_valid_name() {
    let ok = zero2prod::domain::NewSubscriber::parse("a@x.com".to_string(), "le guin".to_string()).unwrap();
    assert_eq!(ok.email.as_str(), "a@x.com");
    assert_eq!(ok.username.as_str(), "le guin");
    assert_eq!(
        zero2prod::domain::NewSubscriber::parse("".to_string(), "".to_string()),
        Err(" is not a valid subscriber email.".to_string())
    );
    assert_eq!(
        zero2prod::domain::NewSubscriber::parse("a@x.com".to_string(), "".to_string()),
        Err(" is not a valid subscriber name.".to_string())
    );
}
