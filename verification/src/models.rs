//! The site's data: blog posts, projects, contact messages, settings,
//! skills, social links, work experience and site metadata.

use vstd::prelude::*;
use vstd::string::*;

verus! {

/// The identifier of a stored record: its table and its key there.
#[derive(Clone, Debug)]
pub struct RecordId {
    pub table: String,
    pub key: String,
}

/// A point in time: seconds since the Unix epoch (UTC) and nanoseconds.
#[derive(Clone, Copy, Debug)]
pub struct Timestamp {
    pub seconds: i64,
    pub nanos: u32,
}

/// A copy of a list of strings.
pub fn clone_strings(v: &Vec<String>) -> (r: Vec<String>)
    ensures
        r@ == v@,
{
    let mut r: Vec<String> = Vec::new();
    let mut i: usize = 0;
    while i < v.len()
        invariant
            i <= v@.len(),
            r@ == v@.take(i as int),
        decreases v@.len() - i,
    {
        r.push(v[i].clone());
        proof {
            assert(r@ =~= v@.take(i + 1));
        }
        i = i + 1;
    }
    proof {
        assert(v@.take(v@.len() as int) =~= v@);
    }
    r
}

/// A copy of an optional string.
pub fn clone_opt_string(s: &Option<String>) -> (r: Option<String>)
    ensures
        r == *s,
{
    match s {
        Some(s) => Some(s.clone()),
        None => None,
    }
}

/// A copy of an optional record identifier.
pub fn clone_record_id(id: &Option<RecordId>) -> (r: Option<RecordId>)
    ensures
        r == *id,
{
    match id {
        Some(id) => Some(RecordId { table: id.table.clone(), key: id.key.clone() }),
        None => None,
    }
}

/// Blog post model.
#[derive(Clone, Debug)]
pub struct BlogPost {
    pub id: Option<RecordId>,
    pub title: String,
    pub slug: String,
    pub excerpt: String,
    pub content: String,
    pub tags: Vec<String>,
    pub published: bool,
    pub reading_time: i32,
    pub created_at: Timestamp,
    pub updated_at: Timestamp,
}

/// Blog post with rendered HTML content.
#[derive(Clone, Debug)]
pub struct BlogPostRendered {
    pub id: Option<RecordId>,
    pub title: String,
    pub slug: String,
    pub excerpt: String,
    pub content_html: String,
    pub tags: Vec<String>,
    pub published: bool,
    pub reading_time: i32,
    pub created_at: Timestamp,
    pub updated_at: Timestamp,
}

impl BlogPost {
    /// Whether `r` is this post with `html` as its content.
    pub open spec fn rendered_as(&self, html: Seq<char>, r: BlogPostRendered) -> bool {
        &&& r.id == self.id
        &&& r.title == self.title
        &&& r.slug == self.slug
        &&& r.excerpt == self.excerpt
        &&& r.content_html@ == html
        &&& r.tags@ == self.tags@
        &&& r.published == self.published
        &&& r.reading_time == self.reading_time
        &&& r.created_at == self.created_at
        &&& r.updated_at == self.updated_at
    }

    /// Convert to rendered version with HTML content.
    pub fn to_rendered(&self, html: String) -> (r: BlogPostRendered)
        ensures
            self.rendered_as(html@, r),
    {
        BlogPostRendered {
            id: clone_record_id(&self.id),
            title: self.title.clone(),
            slug: self.slug.clone(),
            excerpt: self.excerpt.clone(),
            content_html: html,
            tags: clone_strings(&self.tags),
            published: self.published,
            reading_time: self.reading_time,
            created_at: self.created_at,
            updated_at: self.updated_at,
        }
    }
}

/// Create blog post request.
#[derive(Clone, Debug)]
pub struct CreateBlogPost {
    pub title: String,
    pub slug: String,
    pub excerpt: String,
    pub content: String,
    pub tags: Vec<String>,
    pub published: bool,
}

/// A failed validation rule: the field and the rule's code (`length` or
/// `email`).
#[derive(Clone, Debug)]
pub struct FieldError {
    pub field: String,
    pub code: String,
}

/// Whether a text of `len` characters lies within `min..=max`.
pub open spec fn length_within(len: nat, min: nat, max: nat) -> bool {
    min <= len <= max
}

/// The number of characters of `s`.
pub fn char_count(s: &str) -> (n: usize)
    ensures
        n == s@.len(),
{
    crate::text::chars_of(s).len()
}

/// A `length` error on `field`.
pub fn length_error(field: &str) -> (e: FieldError)
    ensures
        e.field@ == field@,
        e.code@ == "length"@,
{
    FieldError { field: field.to_owned(), code: "length".to_owned() }
}

impl CreateBlogPost {
    /// The fields that break a rule, in declaration order: a title and a slug
    /// of 1 to 200 characters, an excerpt of at most 500.
    pub open spec fn invalid_fields(&self) -> Seq<Seq<char>> {
        (if length_within(self.title@.len(), 1, 200) {
            seq![]
        } else {
            seq!["title"@]
        }) + (if length_within(self.slug@.len(), 1, 200) {
            seq![]
        } else {
            seq!["slug"@]
        }) + (if length_within(self.excerpt@.len(), 0, 500) {
            seq![]
        } else {
            seq!["excerpt"@]
        })
    }

    /// Checks the request; every error is a `length` error.
    pub fn validate(&self) -> (r: Result<(), Vec<FieldError>>)
        ensures
            match r {
                Ok(()) => self.invalid_fields().len() == 0,
                Err(errors) => errors@.len() > 0 && errors@.map_values(|e: FieldError| e.field@)
                    == self.invalid_fields() && forall|i: int|
                    0 <= i < errors@.len() ==> (#[trigger] errors@[i]).code@ == "length"@,
            },
    {
        let mut errors: Vec<FieldError> = Vec::new();
        let t = char_count(self.title.as_str());
        if !(1 <= t && t <= 200) {
            errors.push(length_error("title"));
        }
        let s = char_count(self.slug.as_str());
        if !(1 <= s && s <= 200) {
            errors.push(length_error("slug"));
        }
        let e = char_count(self.excerpt.as_str());
        if !(e <= 500) {
            errors.push(length_error("excerpt"));
        }
        assert(errors@.map_values(|e: FieldError| e.field@) =~= self.invalid_fields());
        if errors.len() == 0 {
            Ok(())
        } else {
            Err(errors)
        }
    }
}

/// Project model.
#[derive(Clone, Debug)]
pub struct Project {
    pub id: Option<RecordId>,
    pub title: String,
    pub slug: String,
    pub description: String,
    pub content: String,
    pub tech_stack: Vec<String>,
    pub url: Option<String>,
    pub github_url: Option<String>,
    pub image_url: Option<String>,
    pub featured: bool,
    pub order_index: i32,
    pub created_at: Timestamp,
    pub updated_at: Timestamp,
}

/// Project with rendered HTML content.
#[derive(Clone, Debug)]
pub struct ProjectRendered {
    pub id: Option<RecordId>,
    pub title: String,
    pub slug: String,
    pub description: String,
    pub content_html: String,
    pub tech_stack: Vec<String>,
    pub url: Option<String>,
    pub github_url: Option<String>,
    pub image_url: Option<String>,
    pub featured: bool,
    pub order_index: i32,
    pub created_at: Timestamp,
    pub updated_at: Timestamp,
}

impl Project {
    /// Whether `r` is this project with `html` as its content.
    pub open spec fn rendered_as(&self, html: Seq<char>, r: ProjectRendered) -> bool {
        &&& r.id == self.id
        &&& r.title == self.title
        &&& r.slug == self.slug
        &&& r.description == self.description
        &&& r.content_html@ == html
        &&& r.tech_stack@ == self.tech_stack@
        &&& r.url == self.url
        &&& r.github_url == self.github_url
        &&& r.image_url == self.image_url
        &&& r.featured == self.featured
        &&& r.order_index == self.order_index
        &&& r.created_at == self.created_at
        &&& r.updated_at == self.updated_at
    }

    /// Convert to rendered version with HTML content.
    pub fn to_rendered(&self, html: String) -> (r: ProjectRendered)
        ensures
            self.rendered_as(html@, r),
    {
        ProjectRendered {
            id: clone_record_id(&self.id),
            title: self.title.clone(),
            slug: self.slug.clone(),
            description: self.description.clone(),
            content_html: html,
            tech_stack: clone_strings(&self.tech_stack),
            url: clone_opt_string(&self.url),
            github_url: clone_opt_string(&self.github_url),
            image_url: clone_opt_string(&self.image_url),
            featured: self.featured,
            order_index: self.order_index,
            created_at: self.created_at,
            updated_at: self.updated_at,
        }
    }
}

/// Contact message model.
#[derive(Clone, Debug)]
pub struct ContactMessage {
    pub id: Option<RecordId>,
    pub name: String,
    pub email: String,
    pub subject: String,
    pub message: String,
    pub read: bool,
    pub created_at: Timestamp,
}

/// Contact form submission.
#[derive(Clone, Debug)]
pub struct ContactForm {
    pub name: String,
    pub email: String,
    pub subject: String,
    pub message: String,
    /// Honeypot field - should be empty for real submissions
    pub website: String,
}

/// Site setting model.
#[derive(Clone, Debug)]
pub struct Setting {
    pub id: Option<RecordId>,
    pub key: String,
    pub value: String,
    pub updated_at: Timestamp,
}

/// Skill model.
#[derive(Clone, Debug)]
pub struct Skill {
    pub id: Option<RecordId>,
    pub name: String,
    pub category: String,
    pub proficiency: i32,
    pub icon: Option<String>,
    pub order_index: i32,
}

/// Social link model.
#[derive(Clone, Debug)]
pub struct SocialLink {
    pub id: Option<RecordId>,
    pub platform: String,
    pub url: String,
    pub icon: String,
    pub order_index: i32,
}

/// Experience model for work history.
#[derive(Clone, Debug)]
pub struct Experience {
    pub id: Option<RecordId>,
    pub title: String,
    pub company: String,
    pub period: String,
    pub description: String,
    pub order_index: i32,
}

/// Grouped skills by category.
#[derive(Clone, Debug)]
pub struct SkillGroup {
    pub category: String,
    pub skills: Vec<Skill>,
}

/// Site metadata for templates.
#[derive(Clone, Debug)]
pub struct SiteMeta {
    pub title: String,
    pub description: String,
    pub author: String,
    pub url: String,
    pub portfolio: String,
}

impl SiteMeta {
    /// The metadata of the portfolio site served at `url`.
    pub fn for_site(url: &str) -> (m: SiteMeta)
        ensures
            m.author@ == "Telmo Reinas"@,
            m.title@ == "Software Engineer"@,
            m.portfolio@ == "'s Portfolio"@,
            m.url@ == url@,
            m.description@ == Seq::<char>::empty(),
    {
        SiteMeta {
            author: "Telmo Reinas".to_owned(),
            title: "Software Engineer".to_owned(),
            portfolio: "'s Portfolio".to_owned(),
            url: url.to_owned(),
            description: String::new(),
        }
    }

    /// A copy of this metadata.
    pub fn duplicate(&self) -> (m: SiteMeta)
        ensures
            m == *self,
    {
        SiteMeta {
            title: self.title.clone(),
            description: self.description.clone(),
            author: self.author.clone(),
            url: self.url.clone(),
            portfolio: self.portfolio.clone(),
        }
    }

    /// The title of a page: the page's name, ` | `, then the site's title.
    pub fn with_page_title(&self, page: &str) -> (t: String)
        ensures
            t@ == page@ + " | "@ + self.title@,
    {
        let mut t = page.to_owned();
        t.append(" | ");
        t.append(self.title.as_str());
        t
    }
}

impl Default for SiteMeta {
    fn default() -> (m: SiteMeta)
        ensures
            m.title@.len() == 0 && m.description@.len() == 0 && m.author@.len() == 0
                && m.url@.len() == 0 && m.portfolio@.len() == 0,
    {
        SiteMeta {
            title: String::new(),
            description: String::new(),
            author: String::new(),
            url: String::new(),
            portfolio: String::new(),
        }
    }
}

/// Whether the development data should be seeded: only into a database
/// that holds no posts yet.
pub fn should_seed(existing_posts: usize) -> (seed: bool)
    ensures
        seed == (existing_posts == 0),
{
    existing_posts == 0
}

} // verus!
