use zulip::client::{Call, Method};
use zulip::message::{AddEmojiReactionRequest, EditMessageRequest, RemoveEmojiReactionRequest};
use zulip::rc::{ConfigError, Field};
use zulip::text::{push_decimal, push_signed_decimal};
use zulip::Client;

fn rc(addr: &str) -> String {
    format!("[api]\nemail=test@test.tester.com\nkey=testkey\nsite=http://{}\n", addr)
}

fn client() -> Client {
    Client::new(&rc("127.0.0.1:9999")).unwrap()
}

fn call(method: Method, url: &str) -> Call {
    Call { method, url: url.to_string() }
}

#[test]
fn a_client_holds_its_configuration() {
    let client = client();
    assert_eq!(client.rc().api.email, "test@test.tester.com");
    assert_eq!(client.rc().api.key, "testkey");
    assert_eq!(client.rc().api.site, "http://127.0.0.1:9999");
    let parsed = Client::parse(&rc("127.0.0.1:9999")).unwrap();
    assert_eq!(parsed.rc(), client.rc());
}

#[test]
fn a_client_is_not_made_of_a_broken_configuration() {
    assert_eq!(
        Client::new("[api]\nemail=e\nkey=k\n").map(|c| c.rc().clone()),
        Err(ConfigError::MissingField(Field::Site))
    );
    assert_eq!(
        Client::parse("[bot]\n").map(|c| c.rc().clone()),
        Err(ConfigError::SectionMismatch { found: "[bot]".to_string() })
    );
    assert!(matches!(Client::new("email=e\n"), Err(ConfigError::Syntax(_))));
}

#[test]
fn an_address_is_the_site_and_the_endpoint() {
    assert_eq!(client().url("/api/v1/users"), "http://127.0.0.1:9999/api/v1/users");
    assert_eq!(client().url(""), "http://127.0.0.1:9999");
}

#[test]
fn sending_posts_to_the_messages() {
    assert_eq!(
        client().send_message_call(),
        call(Method::Post, "http://127.0.0.1:9999/api/v1/messages")
    );
}

#[test]
fn getting_puts_the_query_and_the_narrow_in_the_address() {
    assert_eq!(
        client().get_messages_call("anchor=newest&num_before=0&num_after=0", "null"),
        call(
            Method::Get,
            "http://127.0.0.1:9999/api/v1/messages?anchor=newest&num_before=0&num_after=0&narrow=null"
        )
    );
}

#[test]
fn deleting_addresses_the_message() {
    assert_eq!(
        client().delete_message_call(123),
        call(Method::Delete, "http://127.0.0.1:9999/api/v1/messages/123")
    );
    assert_eq!(
        client().delete_message_call(-7),
        call(Method::Delete, "http://127.0.0.1:9999/api/v1/messages/-7")
    );
}

#[test]
fn editing_patches_the_message() {
    assert_eq!(
        client().edit_message_call(&EditMessageRequest::new(40)),
        call(Method::Patch, "http://127.0.0.1:9999/api/v1/messages/40")
    );
}

#[test]
fn reactions_are_added_and_removed_under_the_message() {
    assert_eq!(
        client().add_emoji_reaction_call(&AddEmojiReactionRequest::new(1000, "octopus")),
        call(Method::Post, "http://127.0.0.1:9999/api/v1/messages/1000/reactions")
    );
    assert_eq!(
        client().remove_emoji_reaction_call(&RemoveEmojiReactionRequest::new(0)),
        call(Method::Delete, "http://127.0.0.1:9999/api/v1/messages/0/reactions")
    );
}

#[test]
fn numbers_are_written_in_decimal() {
    for n in [0u64, 1, 9, 10, 11, 99, 100, 101, 1234567890, u64::MAX] {
        let mut out = String::from("n=");
        push_decimal(&mut out, n);
        assert_eq!(out, format!("n={}", n));
    }
}

#[test]
fn negative_numbers_are_written_with_a_sign() {
    for n in [0i64, 5, -5, -10, 907, -1234567890, i64::MAX, i64::MIN, i64::MIN + 1] {
        let mut out = String::new();
        push_signed_decimal(&mut out, n);
        assert_eq!(out, n.to_string());
    }
}
