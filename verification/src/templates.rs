//! The data each page template is filled with, and the response a rendered
//! template becomes.

use vstd::prelude::*;
use vstd::string::*;

use crate::models::{BlogPostRendered, Experience, ProjectRendered, SiteMeta, SkillGroup, SocialLink};

verus! {

/// Wrapper to convert templates to responses.
pub struct HtmlTemplate<T>(pub T);

/// The response for a page.
#[derive(Clone, Debug)]
pub enum PageResponse {
    /// A `200 OK` HTML page.
    Html(String),
    /// An error response with its status code and plain-text body.
    Error { status: u16, body: String },
}

/// The response for a template that rendered to `rendered`, or failed with
/// the message `Err(message)`: the page, or a `500` naming the template
/// error.
pub fn template_response(rendered: Result<String, String>) -> (r: PageResponse)
    ensures
        match rendered {
            Ok(html) => r == PageResponse::Html(html),
            Err(message) => r matches PageResponse::Error { status, body } && status == 500
                && body@ == "Template error: "@ + message@,
        },
{
    match rendered {
        Ok(html) => PageResponse::Html(html),
        Err(message) => {
            let mut body = "Template error: ".to_owned();
            body.append(message.as_str());
            PageResponse::Error { status: 500, body }
        },
    }
}

/// The body of a JSON API response.
pub struct ApiResponse<T> {
    pub success: bool,
    pub data: Option<T>,
    pub message: Option<String>,
}

impl<T> ApiResponse<T> {
    /// A successful response carrying `data`.
    pub fn success(data: T) -> (r: Self)
        ensures
            r.success,
            r.data == Some(data),
            r.message == None::<String>,
    {
        ApiResponse { success: true, data: Some(data), message: None }
    }
}

/// Home page template.
#[derive(Clone, Debug)]
pub struct HomeTemplate {
    pub site: SiteMeta,
    pub featured_projects: Vec<ProjectRendered>,
    pub recent_posts: Vec<BlogPostRendered>,
    pub social_links: Vec<SocialLink>,
    pub intro_text: String,
    pub css: String,
}

/// About page template.
#[derive(Clone, Debug)]
pub struct AboutTemplate {
    pub site: SiteMeta,
    pub content_html: String,
    pub skill_groups: Vec<SkillGroup>,
    pub social_links: Vec<SocialLink>,
    pub experiences: Vec<Experience>,
    pub css: String,
}

/// Projects listing page template.
#[derive(Clone, Debug)]
pub struct ProjectsTemplate {
    pub site: SiteMeta,
    pub projects: Vec<ProjectRendered>,
    pub css: String,
}

/// Single project page template.
#[derive(Clone, Debug)]
pub struct ProjectTemplate {
    pub site: SiteMeta,
    pub project: ProjectRendered,
    pub css: String,
}

/// Blog listing page template.
#[derive(Clone, Debug)]
pub struct BlogTemplate {
    pub site: SiteMeta,
    pub posts: Vec<BlogPostRendered>,
    pub tags: Vec<String>,
    pub css: String,
}

/// Single blog post page template.
#[derive(Clone, Debug)]
pub struct BlogPostTemplate {
    pub site: SiteMeta,
    pub post: BlogPostRendered,
    pub css: String,
}

/// Contact page template.
#[derive(Clone, Debug)]
pub struct ContactTemplate {
    pub site: SiteMeta,
    pub social_links: Vec<SocialLink>,
    pub css: String,
}

/// 404 Not Found page template.
#[derive(Clone, Debug)]
pub struct NotFoundTemplate {
    pub site: SiteMeta,
    pub css: String,
}

/// Blog posts list partial.
#[derive(Clone, Debug)]
pub struct BlogListPartial {
    pub posts: Vec<BlogPostRendered>,
}

} // verus!
