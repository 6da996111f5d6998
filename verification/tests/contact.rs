use portfolio::contact::{contact_reply, contains_text, discord_embed, looks_like_spam, validate_contact, EMBED_COLOR};
use portfolio::models::ContactForm;

fn form(name: &str, email: &str, subject: &str, message: &str, website: &str) -> ContactForm {
    ContactForm {
        name: name.into(),
        email: email.into(),
        subject: subject.into(),
        message: message.into(),
        website: website.into(),
    }
}

const QUIET: &str = "<div class=\"form-success\" role=\"status\">\n                <i class=\"fa-solid fa-circle-check icon\" aria-hidden=\"true\"></i>\n                <h3>Message Sent!</h3>\n                <p>Thank you for reaching out.</p>\n            </div>";
const SENT: &str = "<div class=\"form-success\" role=\"status\">\n            <i class=\"fa-solid fa-circle-check icon\" aria-hidden=\"true\"></i>\n            <h3>Message Sent!</h3>\n            <p>Thank you for reaching out. I'll get back to you soon.</p>\n        </div>";

#[test]
fn valid_submission_is_stored() {
    let f = form("Ada", "ada@example.com", "Hello", "I liked your blog post a lot.", "");
    assert!(!looks_like_spam(&f));
    assert!(validate_contact(&f).is_ok());
    let r = contact_reply(&f);
    assert!(r.store);
    assert_eq!(r.html, SENT);
}

#[test]
fn honeypot_is_quietly_dropped() {
    let f = form("Ada", "ada@example.com", "Hello", "I liked your blog post a lot.", "spam.example");
    let r = contact_reply(&f);
    assert!(!r.store);
    assert_eq!(r.html, QUIET);
}

#[test]
fn keywords_are_found_in_any_case() {
    let f = form("Bob", "bob@example.com", "Great PRIZE inside", "Please reply to this message.", "");
    assert!(looks_like_spam(&f));
    let f = form("Bob", "bob@example.com", "Hi", "Try our CaSiNo tonight, friend", "");
    assert!(looks_like_spam(&f));
    let r = contact_reply(&f);
    assert!(!r.store);
    assert_eq!(r.html, QUIET);
}

#[test]
fn links_are_spam() {
    let f = form("Bob", "bob@example.com", "Hi", "see https://x.example now", "");
    assert!(looks_like_spam(&f));
    // the link check reads the message as written
    let f = form("Bob", "bob@example.com", "Hi", "see HTTPS://x.example now", "");
    assert!(!looks_like_spam(&f));
}

#[test]
fn invalid_fields_are_listed() {
    let f = form("", "not-an-email", "Hi", "short", "");
    let errors = validate_contact(&f).unwrap_err();
    let fields: Vec<&str> = errors.iter().map(|e| e.field.as_str()).collect();
    assert_eq!(fields, vec!["name", "email", "message"]);
    let codes: Vec<&str> = errors.iter().map(|e| e.code.as_str()).collect();
    assert_eq!(codes, vec!["length", "email", "length"]);
    let r = contact_reply(&f);
    assert!(!r.store);
    assert_eq!(
        r.html,
        "<div class=\"form-error\" role=\"alert\">\n                <p>Please fix the following errors:</p>\n                <ul><li><strong>name:</strong> Invalid</li><li><strong>email:</strong> Invalid</li><li><strong>message:</strong> Invalid</li></ul>\n            </div>"
    );
}

#[test]
fn length_limits_count_characters() {
    let name = "é".repeat(100);
    let f = form(&name, "a@b.co", "s", "0123456789", "");
    assert!(validate_contact(&f).is_ok());
    let name = "é".repeat(101);
    let f = form(&name, "a@b.co", "s", "0123456789", "");
    assert!(validate_contact(&f).is_err());
}

#[test]
fn email_rule_rejects_missing_at() {
    let f = form("Ada", "ada.example.com", "Hello", "0123456789", "");
    let errors = validate_contact(&f).unwrap_err();
    assert_eq!(errors.len(), 1);
    assert_eq!(errors[0].field, "email");
}

#[test]
fn substring_search() {
    assert!(contains_text("lottery ticket", "lottery"));
    assert!(contains_text("abc", ""));
    assert!(!contains_text("ab", "abc"));
    assert!(contains_text("xxdating for sex", "dating for sex"));
}

#[test]
fn embed_lists_sender_and_message() {
    let f = form("Ada", "ada@example.com", "Hello", "Nice site", "");
    let e = discord_embed(&f, "New Contact with Subject: ");
    assert_eq!(e.title, "New Contact with Subject: Hello");
    assert_eq!(e.color, EMBED_COLOR);
    assert_eq!(e.color, 0x89b4fa);
    assert_eq!(e.fields.len(), 3);
    assert_eq!((e.fields[0].name.as_str(), e.fields[0].value.as_str(), e.fields[0].inline), ("Name", "Ada", Some(true)));
    assert_eq!((e.fields[1].name.as_str(), e.fields[1].value.as_str(), e.fields[1].inline), ("Email", "ada@example.com", Some(true)));
    assert_eq!((e.fields[2].name.as_str(), e.fields[2].value.as_str(), e.fields[2].inline), ("Message", "Nice site", None));
}
