use santa_core::contact::email::{contains_char, Email};
use santa_core::contact::phone::PhoneNumber;
use santa_core::contact::ContactMethod;

#[test]
fn new_phone_number() {
    let phone = PhoneNumber::new("+441122334455").unwrap();
    assert_eq!(phone.value(), "+441122334455");

    let phone = PhoneNumber::new("441122334455").unwrap();
    assert_eq!(phone.value(), "+441122334455");
}

#[test]
fn new_invalid_phone_number() {
    let phone = PhoneNumber::new("asdf");
    assert_eq!(phone, None);

    let phone = PhoneNumber::new("441122334455").unwrap();
    assert_eq!(phone.value(), "+441122334455");
}

#[test]
fn send_msg() {
    let phone = PhoneNumber::new("+441122334455").unwrap();

    phone.send_message("This is a test!");
}

#[test]
fn new_email() {
    let email = Email::new("alice@blah.com").unwrap();
    assert_eq!(email.value(), "alice@blah.com");
}

#[test]
fn new_invalid_email() {
    let email = Email::new("a@b.c");
    assert_eq!(email, None);

    let email = Email::new("Not an email");
    assert_eq!(email, None);
}

#[test]
fn format_validation() {
    assert_eq!(PhoneNumber::new("441122334455").unwrap().value(), "+441122334455");
    assert_eq!(PhoneNumber::new("abc"), None);
    assert_eq!(Email::new("a@b.c"), None);
    assert_eq!(Email::new("alice@blah.com").unwrap().value(), "alice@blah.com");
}

#[test]
fn phone_number_length_boundary() {
    assert_eq!(PhoneNumber::new(""), None);
    assert_eq!(PhoneNumber::new("12345"), None);
    assert_eq!(PhoneNumber::new("+1234"), None);
    assert_eq!(PhoneNumber::new("123456").unwrap().value(), "+123456");
    assert_eq!(PhoneNumber::new("+12345").unwrap().value(), "+12345");
}

#[test]
fn phone_number_is_not_checked_for_digits() {
    assert_eq!(PhoneNumber::new("abcdef").unwrap().value(), "+abcdef");
    assert_eq!(PhoneNumber::new("12+456").unwrap().value(), "+12+456");
}

#[test]
fn lengths_count_characters() {
    // three characters, six bytes
    assert_eq!(PhoneNumber::new("\u{e9}\u{e9}\u{e9}"), None);
    assert_eq!(Email::new("\u{e9}@\u{e9}"), None);
    assert_eq!(Email::new("\u{e9}@\u{e9}.fr").unwrap().value(), "\u{e9}@\u{e9}.fr");
}

#[test]
fn email_boundaries() {
    assert_eq!(Email::new(""), None);
    assert_eq!(Email::new("a@b.cd").unwrap().value(), "a@b.cd");
    assert_eq!(Email::new("abcdef"), None);
    assert_eq!(Email::new("abcde@").unwrap().value(), "abcde@");
    assert_eq!(Email::new("@bcdef").unwrap().value(), "@bcdef");
}

#[test]
fn contains_char_finds_only_what_is_there() {
    assert!(contains_char("alice@blah.com", '@'));
    assert!(!contains_char("alice.blah.com", '@'));
    assert!(!contains_char("", '@'));
    assert!(contains_char("x", 'x'));
}

#[test]
fn dispatch_names_the_address_and_the_message() {
    let phone = PhoneNumber::new("441122334455").unwrap();
    assert_eq!(
        phone.send_message("This is a test!"),
        "+441122334455 <-- This is a test!"
    );
    let email = Email::new("alice@blah.com").unwrap();
    assert_eq!(email.send_message("Hi"), "alice@blah.com <-- Hi");
    assert_eq!(email.send_message(""), "alice@blah.com <-- ");
}

#[test]
fn contact_clone_is_equal() {
    let phone = PhoneNumber::new("441122334455").unwrap();
    assert_eq!(phone.clone(), phone);
    let email = Email::new("alice@blah.com").unwrap();
    assert_eq!(email.clone(), email);
}
