use backend_service::admin_check::{check_admin_file, is_admin};
use backend_service::exlogging::LogLevel;
use backend_service::models::default_currency;
use backend_service::requests::{
    create_composite_key, create_email_prefix, deserialize_composite_key, KeyError,
};

#[test]
fn a_key_is_length_address_and_identifier() {
    assert_eq!(create_email_prefix("a@b.c"), vec![0, 5, b'a', b'@', b'b', b'.', b'c']);
    assert_eq!(
        create_composite_key("a@b.c", "ID1"),
        vec![0, 5, b'a', b'@', b'b', b'.', b'c', b'I', b'D', b'1']
    );
    assert_eq!(create_composite_key("", ""), vec![0, 0]);
    let long = "x".repeat(300);
    let key = create_composite_key(&long, "7");
    assert_eq!(&key[..2], &[1, 44]);
    assert_eq!(key.len(), 303);
}

#[test]
fn a_key_reads_back() {
    for (email, uid) in [("a@b.c", "ID1"), ("", ""), ("юзер@приклад.укр", "АБВ"), ("a", "")] {
        let key = create_composite_key(email, uid);
        assert_eq!(
            deserialize_composite_key(&key),
            Ok((email.to_string(), uid.to_string()))
        );
    }
    let long = "x".repeat(65535);
    let key = create_composite_key(&long, "id");
    assert_eq!(deserialize_composite_key(&key), Ok((long, "id".to_string())));
}

#[test]
fn an_address_that_is_too_long_does_not_read_back() {
    let long = "x".repeat(65536 + 3);
    let key = create_composite_key(&long, "id");
    assert_eq!(&key[..2], &[0, 3]);
    let (email, uid) = deserialize_composite_key(&key).unwrap();
    assert_eq!(email, "xxx");
    assert_eq!(uid.len(), 65536 + 2);
}

#[test]
fn keys_that_hold_nothing() {
    assert_eq!(deserialize_composite_key(&[]), Err(KeyError::MissingLength));
    assert_eq!(deserialize_composite_key(&[0]), Err(KeyError::MissingLength));
    assert_eq!(deserialize_composite_key(&[0, 3, b'a', b'b']), Err(KeyError::MissingEmail));
    assert_eq!(deserialize_composite_key(&[0, 1, 0xff, b'b']), Err(KeyError::EmailNotText));
    assert_eq!(deserialize_composite_key(&[0, 1, b'a', 0xc3]), Err(KeyError::UidNotText));
    assert_eq!(deserialize_composite_key(&[0, 0]), Ok((String::new(), String::new())));
}

#[test]
fn keys_of_a_user_begin_with_the_prefix() {
    let prefix = create_email_prefix("a@b.c");
    assert!(create_composite_key("a@b.c", "1").starts_with(&prefix));
    assert!(create_composite_key("a@b.c", "zzz").starts_with(&prefix));
    assert!(!create_composite_key("a@b.cc", "1").starts_with(&prefix));
}

#[test]
fn administrators_are_listed_one_on_a_line() {
    let file = "root@example.com\nadmin@example.com\r\n\nlast@example.com";
    assert!(is_admin("root@example.com", file));
    assert!(is_admin("admin@example.com", file));
    assert!(is_admin("last@example.com", file));
    assert!(!is_admin("user@example.com", file));
    assert!(!is_admin("admin@example.co", file));
    assert!(!is_admin(" admin@example.com", file));
    assert!(is_admin("", file));
    assert!(!is_admin("", "a\nb"));
    assert!(!is_admin("a", ""));
}

#[test]
fn the_notice_of_the_administrators_file() {
    assert_eq!(
        check_admin_file("admins.txt", true),
        (LogLevel::Info, "Admin file found at: admins.txt".to_string())
    );
    assert_eq!(
        check_admin_file("/etc/admins.txt", false),
        (
            LogLevel::Error,
            "Admin file NOT found at: /etc/admins.txt. Admin functionality might be limited."
                .to_string()
        )
    );
}

#[test]
fn the_currency_of_a_company_that_states_none() {
    assert_eq!(default_currency(None), "грн");
    assert_eq!(default_currency(Some("USD".to_string())), "USD");
}
