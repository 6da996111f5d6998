//! The contact form: spam screening, validation, the HTML replies and the
//! notification that announces a message.

use validator::ValidateEmail;
use vstd::prelude::*;
use vstd::string::*;

use crate::models::{char_count, length_error, length_within, ContactForm, FieldError};
use crate::text::{chars_of, contains_seq, occurs_at};

verus! {

/// The lowercase form of `s`, as `str::to_lowercase` gives it.
pub uninterp spec fn lowercase(s: Seq<char>) -> Seq<char>;

/// `str::to_lowercase`: `s` with every character mapped to its Unicode
/// lowercase. The contract names the result without stating it.
#[verifier::external_body]
fn to_lowercase(s: &str) -> (lower: String)
    ensures
        lower@ == lowercase(s@),
{
    s.to_lowercase()
}

/// Whether `s` is an email address that validator's `email` rule accepts.
pub uninterp spec fn email_valid(s: Seq<char>) -> bool;

/// `validator::ValidateEmail::validate_email` on a string. The crate's
/// source rejects the empty string and any string without `@` before
/// anything else; the rest of the rule is only named.
#[verifier::external_body]
fn is_valid_email(s: &str) -> (b: bool)
    ensures
        b == email_valid(s@),
        s@.len() == 0 ==> !b,
        !s@.contains('@') ==> !b,
{
    s.validate_email()
}

/// Whether `needle` occurs at position `at` of `hay`.
fn occurs_at_exec(hay: &Vec<char>, needle: &Vec<char>, at: usize) -> (b: bool)
    ensures
        b == occurs_at(hay@, needle@, at as int),
{
    if at > hay.len() || needle.len() > hay.len() - at {
        return false;
    }
    let hay_len = hay.len();
    let mut j: usize = 0;
    while j < needle.len()
        invariant
            hay_len == hay@.len(),
            at + needle@.len() <= hay@.len(),
            j <= needle@.len(),
            forall|k: int| 0 <= k < j ==> hay@[at + k] == needle@[k],
        decreases needle@.len() - j,
    {
        assert(at + j < hay_len);
        if hay[at + j] != needle[j] {
            assert(hay@.subrange(at as int, at + needle@.len())[j as int] != needle@[j as int]);
            return false;
        }
        j = j + 1;
    }
    assert(hay@.subrange(at as int, at + needle@.len()) =~= needle@);
    true
}

/// Whether `needle` occurs in `hay`.
pub fn contains_text(hay: &str, needle: &str) -> (b: bool)
    ensures
        b == contains_seq(hay@, needle@),
{
    let h = chars_of(hay);
    let n = chars_of(needle);
    let mut at: usize = 0;
    while at < h.len()
        invariant
            h@ == hay@,
            n@ == needle@,
            at <= h@.len(),
            forall|k: int| 0 <= k < at ==> !occurs_at(hay@, needle@, k),
        decreases h@.len() - at,
    {
        if occurs_at_exec(&h, &n, at) {
            return true;
        }
        at = at + 1;
    }
    if occurs_at_exec(&h, &n, at) {
        return true;
    }
    assert forall|k: int| !occurs_at(hay@, needle@, k) by {
        if 0 <= k && k <= at {
        }
    }
    false
}

/// Whether the lowercase message or subject mentions `keyword`.
pub open spec fn mentions(message_lower: Seq<char>, subject_lower: Seq<char>, keyword: Seq<char>) -> bool {
    contains_seq(message_lower, keyword) || contains_seq(subject_lower, keyword)
}

/// Whether a submission is treated as spam: the hidden `website` field is
/// filled in, the message or subject (lowercased) mentions one of the spam
/// keywords, or the message holds a link (`http`).
pub open spec fn is_spam(form: ContactForm) -> bool {
    let m = lowercase(form.message@);
    let s = lowercase(form.subject@);
    ||| form.website@.len() > 0
    ||| mentions(m, s, "viagra"@)
    ||| mentions(m, s, "casino"@)
    ||| mentions(m, s, "crypto"@)
    ||| mentions(m, s, "dating for sex"@)
    ||| mentions(m, s, "lottery"@)
    ||| mentions(m, s, "prize"@)
    ||| contains_seq(form.message@, "http"@)
}

/// What makes a submission spam: a filled-in hidden `website` field, any of
/// the keywords `viagra`, `casino`, `crypto`, `dating for sex`, `lottery`
/// and `prize` in the lowercased message or subject, or `http` in the
/// message; and nothing else.
pub proof fn law_spam_screening(form: ContactForm)
    ensures
        form.website@.len() > 0 ==> is_spam(form),
        contains_seq(lowercase(form.message@), "viagra"@) ==> is_spam(form),
        contains_seq(lowercase(form.subject@), "viagra"@) ==> is_spam(form),
        contains_seq(lowercase(form.message@), "casino"@) ==> is_spam(form),
        contains_seq(lowercase(form.subject@), "casino"@) ==> is_spam(form),
        contains_seq(lowercase(form.message@), "crypto"@) ==> is_spam(form),
        contains_seq(lowercase(form.subject@), "crypto"@) ==> is_spam(form),
        contains_seq(lowercase(form.message@), "dating for sex"@) ==> is_spam(form),
        contains_seq(lowercase(form.subject@), "dating for sex"@) ==> is_spam(form),
        contains_seq(lowercase(form.message@), "lottery"@) ==> is_spam(form),
        contains_seq(lowercase(form.subject@), "lottery"@) ==> is_spam(form),
        contains_seq(lowercase(form.message@), "prize"@) ==> is_spam(form),
        contains_seq(lowercase(form.subject@), "prize"@) ==> is_spam(form),
        contains_seq(form.message@, "http"@) ==> is_spam(form),
        is_spam(form) ==> form.website@.len() > 0
            || contains_seq(lowercase(form.message@), "viagra"@)
            || contains_seq(lowercase(form.subject@), "viagra"@)
            || contains_seq(lowercase(form.message@), "casino"@)
            || contains_seq(lowercase(form.subject@), "casino"@)
            || contains_seq(lowercase(form.message@), "crypto"@)
            || contains_seq(lowercase(form.subject@), "crypto"@)
            || contains_seq(lowercase(form.message@), "dating for sex"@)
            || contains_seq(lowercase(form.subject@), "dating for sex"@)
            || contains_seq(lowercase(form.message@), "lottery"@)
            || contains_seq(lowercase(form.subject@), "lottery"@)
            || contains_seq(lowercase(form.message@), "prize"@)
            || contains_seq(lowercase(form.subject@), "prize"@)
            || contains_seq(form.message@, "http"@),
{
}

/// The rules of the contact form, by the numbers: a submission breaks none
/// exactly when its name has 1 to 100 characters, its email address is
/// valid, its subject has 1 to 200 characters and its message 10 to 5000.
pub proof fn law_contact_rules(form: ContactForm)
    ensures
        invalid_contact_fields(form).len() == 0 <==> (1 <= form.name@.len() <= 100
            && email_valid(form.email@) && 1 <= form.subject@.len() <= 200 && 10
            <= form.message@.len() <= 5000),
{
}

/// Whether the lowercase message or subject mentions `keyword`.
fn mentions_exec(message_lower: &str, subject_lower: &str, keyword: &str) -> (b: bool)
    ensures
        b == mentions(message_lower@, subject_lower@, keyword@),
{
    contains_text(message_lower, keyword) || contains_text(subject_lower, keyword)
}

/// Screens a submission for spam.
pub fn looks_like_spam(form: &ContactForm) -> (spam: bool)
    ensures
        spam == is_spam(*form),
{
    let message_lower = to_lowercase(form.message.as_str());
    let subject_lower = to_lowercase(form.subject.as_str());
    let m = message_lower.as_str();
    let s = subject_lower.as_str();
    !form.website.as_str().is_empty() || mentions_exec(m, s, "viagra") || mentions_exec(m, s, "casino")
        || mentions_exec(m, s, "crypto") || mentions_exec(m, s, "dating for sex") || mentions_exec(
        m,
        s,
        "lottery",
    ) || mentions_exec(m, s, "prize") || contains_text(form.message.as_str(), "http")
}

/// The fields of a submission that break a rule, in declaration order: a
/// name of 1 to 100 characters, a valid email address, a subject of 1 to 200
/// characters and a message of 10 to 5000.
pub open spec fn invalid_contact_fields(form: ContactForm) -> Seq<Seq<char>> {
    (if length_within(form.name@.len(), 1, 100) {
        seq![]
    } else {
        seq!["name"@]
    }) + (if email_valid(form.email@) {
        seq![]
    } else {
        seq!["email"@]
    }) + (if length_within(form.subject@.len(), 1, 200) {
        seq![]
    } else {
        seq!["subject"@]
    }) + (if length_within(form.message@.len(), 10, 5000) {
        seq![]
    } else {
        seq!["message"@]
    })
}

/// The rule code of a field of the contact form.
pub open spec fn contact_rule(field: Seq<char>) -> Seq<char> {
    if field == "email"@ {
        "email"@
    } else {
        "length"@
    }
}

/// Checks a submission against the form's rules.
pub fn validate_contact(form: &ContactForm) -> (r: Result<(), Vec<FieldError>>)
    ensures
        r is Ok <==> (1 <= form.name@.len() <= 100 && email_valid(form.email@) && 1
            <= form.subject@.len() <= 200 && 10 <= form.message@.len() <= 5000),
        match r {
            Ok(()) => invalid_contact_fields(*form).len() == 0,
            Err(errors) => errors@.len() > 0 && errors@.map_values(|e: FieldError| e.field@)
                == invalid_contact_fields(*form) && forall|i: int|
                0 <= i < errors@.len() ==> (#[trigger] errors@[i]).code@ == contact_rule(
                    errors@[i].field@,
                ),
        },
{
    let mut errors: Vec<FieldError> = Vec::new();
    let n = char_count(form.name.as_str());
    if !(1 <= n && n <= 100) {
        errors.push(length_error("name"));
    }
    if !is_valid_email(form.email.as_str()) {
        errors.push(FieldError { field: "email".to_owned(), code: "email".to_owned() });
    }
    let s = char_count(form.subject.as_str());
    if !(1 <= s && s <= 200) {
        errors.push(length_error("subject"));
    }
    let m = char_count(form.message.as_str());
    if !(10 <= m && m <= 5000) {
        errors.push(length_error("message"));
    }
    proof {
        reveal_strlit("email");
        reveal_strlit("name");
        reveal_strlit("subject");
        reveal_strlit("message");
    }
    assert(errors@.map_values(|e: FieldError| e.field@) =~= invalid_contact_fields(*form));
    if errors.len() == 0 {
        Ok(())
    } else {
        Err(errors)
    }
}

/// The reply to a submission screened out as spam: it looks like success.
pub open spec fn quiet_ack_html() -> Seq<char> {
    "<div class=\"form-success\" role=\"status\">\n                <i class=\"fa-solid fa-circle-check icon\" aria-hidden=\"true\"></i>\n                <h3>Message Sent!</h3>\n                <p>Thank you for reaching out.</p>\n            </div>"@
}

/// The reply to an accepted submission.
pub open spec fn sent_html() -> Seq<char> {
    "<div class=\"form-success\" role=\"status\">\n            <i class=\"fa-solid fa-circle-check icon\" aria-hidden=\"true\"></i>\n            <h3>Message Sent!</h3>\n            <p>Thank you for reaching out. I'll get back to you soon.</p>\n        </div>"@
}

/// The list items naming each invalid field.
pub open spec fn error_items(fields: Seq<Seq<char>>) -> Seq<char>
    decreases fields.len(),
{
    if fields.len() == 0 {
        seq![]
    } else {
        error_items(fields.drop_last()) + "<li><strong>"@ + fields.last() + ":</strong> Invalid</li>"@
    }
}

/// The reply to a submission that breaks the rules on `fields`.
pub open spec fn invalid_html(fields: Seq<Seq<char>>) -> Seq<char> {
    "<div class=\"form-error\" role=\"alert\">\n                <p>Please fix the following errors:</p>\n                <ul>"@
        + error_items(fields) + "</ul>\n            </div>"@
}

/// What the site does with a submission: whether it stores the message (and
/// announces it) and what HTML it replies with.
#[derive(Clone, Debug)]
pub struct ContactReply {
    pub store: bool,
    pub html: String,
}

/// Decides on a submission from the contact page: spam is acknowledged
/// without being stored, an invalid form gets the list of its invalid
/// fields, a valid one is stored and acknowledged.
pub fn contact_reply(form: &ContactForm) -> (r: ContactReply)
    ensures
        is_spam(*form) ==> !r.store && r.html@ == quiet_ack_html(),
        !is_spam(*form) && invalid_contact_fields(*form).len() > 0 ==> !r.store && r.html@
            == invalid_html(invalid_contact_fields(*form)),
        !is_spam(*form) && invalid_contact_fields(*form).len() == 0 ==> r.store && r.html@
            == sent_html(),
{
    if looks_like_spam(form) {
        return ContactReply {
            store: false,
            html: "<div class=\"form-success\" role=\"status\">\n                <i class=\"fa-solid fa-circle-check icon\" aria-hidden=\"true\"></i>\n                <h3>Message Sent!</h3>\n                <p>Thank you for reaching out.</p>\n            </div>".to_owned(),
        };
    }
    match validate_contact(form) {
        Err(errors) => {
            let mut html = "<div class=\"form-error\" role=\"alert\">\n                <p>Please fix the following errors:</p>\n                <ul>".to_owned();
            let ghost fields = errors@.map_values(|e: FieldError| e.field@);
            let mut i: usize = 0;
            while i < errors.len()
                invariant
                    i <= errors@.len(),
                    fields == errors@.map_values(|e: FieldError| e.field@),
                    html@ == "<div class=\"form-error\" role=\"alert\">\n                <p>Please fix the following errors:</p>\n                <ul>"@
                        + error_items(fields.take(i as int)),
                decreases errors@.len() - i,
            {
                html.append("<li><strong>");
                html.append(errors[i].field.as_str());
                html.append(":</strong> Invalid</li>");
                proof {
                    assert(fields.take(i + 1).drop_last() =~= fields.take(i as int));
                }
                i = i + 1;
            }
            html.append("</ul>\n            </div>");
            proof {
                assert(fields.take(errors@.len() as int) =~= fields);
            }
            ContactReply { store: false, html }
        },
        Ok(()) => ContactReply {
            store: true,
            html: "<div class=\"form-success\" role=\"status\">\n            <i class=\"fa-solid fa-circle-check icon\" aria-hidden=\"true\"></i>\n            <h3>Message Sent!</h3>\n            <p>Thank you for reaching out. I'll get back to you soon.</p>\n        </div>".to_owned(),
        },
    }
}

/// One field of a notification embed.
#[derive(Clone, Debug)]
pub struct EmbedField {
    pub name: String,
    pub value: String,
    /// Whether the field sits beside the others; `None` leaves the key out.
    pub inline: Option<bool>,
}

/// The embed a notification about a new message carries (the time stamp is
/// added where the notification is sent).
#[derive(Clone, Debug)]
pub struct DiscordEmbed {
    pub title: String,
    pub color: u32,
    pub fields: Vec<EmbedField>,
}

/// The colour of notification embeds.
pub const EMBED_COLOR: u32 = 0x89b4fa;

/// The embed announcing `form`, titled `title_prefix` followed by the
/// subject, with the sender's name and email side by side and the message
/// below.
pub fn discord_embed(form: &ContactForm, title_prefix: &str) -> (e: DiscordEmbed)
    ensures
        e.title@ == title_prefix@ + form.subject@,
        e.color == EMBED_COLOR,
        e.fields@.len() == 3,
        e.fields@[0].name@ == "Name"@ && e.fields@[0].value == form.name && e.fields@[0].inline
            == Some(true),
        e.fields@[1].name@ == "Email"@ && e.fields@[1].value == form.email && e.fields@[1].inline
            == Some(true),
        e.fields@[2].name@ == "Message"@ && e.fields@[2].value == form.message
            && e.fields@[2].inline == None::<bool>,
{
    let mut title = title_prefix.to_owned();
    title.append(form.subject.as_str());
    let mut fields: Vec<EmbedField> = Vec::new();
    fields.push(EmbedField { name: "Name".to_owned(), value: form.name.clone(), inline: Some(true) });
    fields.push(
        EmbedField { name: "Email".to_owned(), value: form.email.clone(), inline: Some(true) },
    );
    fields.push(EmbedField { name: "Message".to_owned(), value: form.message.clone(), inline: None });
    DiscordEmbed { title, color: EMBED_COLOR, fields }
}

} // verus!
