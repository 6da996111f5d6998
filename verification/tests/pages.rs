use portfolio::css::{combine, with_base, ABOUT, BLOG, CONTACT, ERROR_404, HOME, PROJECTS};
use portfolio::markdown::MarkdownRenderer;
use portfolio::models::{
    BlogPost, BlogPostRendered, CreateBlogPost, Project, RecordId, Setting, SiteMeta, Skill,
    SocialLink, Timestamp,
};
use portfolio::pages::{
    about_page, blog_page, blog_post_page, collect_tags, contact_page, group_skills, home_page,
    not_found_page, project_page, projects_page, render_posts, PostsFilterQuery, PUBLISHED_POSTS,
    PUBLISHED_POSTS_WITH_TAG,
};
use portfolio::templates::{template_response, PageResponse};

fn at(s: i64) -> Timestamp {
    Timestamp { seconds: s, nanos: 0 }
}

fn post(slug: &str, tags: &[&str], content: &str) -> BlogPost {
    BlogPost {
        id: Some(RecordId { table: "posts".into(), key: slug.into() }),
        title: format!("Post {}", slug),
        slug: slug.into(),
        excerpt: "e".into(),
        content: content.into(),
        tags: tags.iter().map(|t| t.to_string()).collect(),
        published: true,
        reading_time: 2,
        created_at: at(10),
        updated_at: at(20),
    }
}

fn rendered(slug: &str, tags: &[&str]) -> BlogPostRendered {
    post(slug, tags, "x").to_rendered(String::new())
}

fn skill(name: &str, category: &str) -> Skill {
    Skill { id: None, name: name.into(), category: category.into(), proficiency: 3, icon: None, order_index: 0 }
}

fn site() -> SiteMeta {
    SiteMeta::for_site("https://example.org")
}

#[test]
fn site_meta_for_portfolio() {
    let s = site();
    assert_eq!(s.author, "Telmo Reinas");
    assert_eq!(s.title, "Software Engineer");
    assert_eq!(s.portfolio, "'s Portfolio");
    assert_eq!(s.url, "https://example.org");
    assert_eq!(s.description, "");
    assert_eq!(s.with_page_title("Blog"), "Blog | Software Engineer");
    let d = SiteMeta::default();
    assert_eq!((d.title, d.description, d.author, d.url, d.portfolio), (String::new(), String::new(), String::new(), String::new(), String::new()));
}

#[test]
fn to_rendered_keeps_fields() {
    let p = post("hello", &["rust"], "# hi");
    let r = p.to_rendered("<h1>hi</h1>".into());
    assert_eq!(r.title, p.title);
    assert_eq!(r.slug, "hello");
    assert_eq!(r.content_html, "<h1>hi</h1>");
    assert_eq!(r.tags, vec!["rust".to_string()]);
    assert_eq!(r.created_at.seconds, 10);
    assert_eq!(r.updated_at.seconds, 20);
    assert_eq!(r.id.as_ref().map(|i| i.key.as_str()), Some("hello"));
    let project = Project {
        id: None,
        title: "T".into(),
        slug: "t".into(),
        description: "d".into(),
        content: "c".into(),
        tech_stack: vec!["rust".into(), "wasm".into()],
        url: Some("https://t".into()),
        github_url: None,
        image_url: None,
        featured: true,
        order_index: 4,
        created_at: at(1),
        updated_at: at(2),
    };
    let pr = project.to_rendered("<p>c</p>".into());
    assert_eq!(pr.tech_stack, project.tech_stack);
    assert_eq!(pr.url.as_deref(), Some("https://t"));
    assert!(pr.featured);
    assert_eq!(pr.order_index, 4);
    assert_eq!(pr.content_html, "<p>c</p>");
}

#[test]
fn tags_are_sorted_and_unique() {
    let posts = vec![rendered("a", &["rust", "web"]), rendered("b", &["css", "rust", "Zig"]), rendered("c", &[])];
    assert_eq!(collect_tags(&posts), vec!["Zig", "css", "rust", "web"]);
    let mut expected: Vec<String> = posts.iter().flat_map(|p| p.tags.clone()).collect();
    expected.sort();
    expected.dedup();
    assert_eq!(collect_tags(&posts), expected);
    assert!(collect_tags(&vec![]).is_empty());
}

#[test]
fn tags_sort_like_strings() {
    let posts = vec![rendered("a", &["é", "e", "ab", "a", "", "z", "ä"])];
    let mut expected: Vec<String> = posts[0].tags.clone();
    expected.sort();
    expected.dedup();
    assert_eq!(collect_tags(&posts), expected);
}

#[test]
fn skills_are_grouped_by_category() {
    let skills = vec![
        skill("Rust", "Languages"),
        skill("Go", "Languages"),
        skill("Docker", "Tools"),
        skill("Git", "Tools"),
        skill("Zig", "Languages"),
    ];
    let groups = group_skills(&skills);
    let summary: Vec<(String, Vec<String>)> = groups
        .iter()
        .map(|g| (g.category.clone(), g.skills.iter().map(|s| s.name.clone()).collect()))
        .collect();
    assert_eq!(
        summary,
        vec![
            ("Languages".to_string(), vec!["Rust".to_string(), "Go".to_string()]),
            ("Tools".to_string(), vec!["Docker".to_string(), "Git".to_string()]),
            ("Languages".to_string(), vec!["Zig".to_string()]),
        ]
    );
}

#[test]
fn leading_uncategorized_skills_are_left_out() {
    let skills = vec![skill("A", ""), skill("B", ""), skill("C", "X"), skill("D", ""), skill("E", "")];
    let groups = group_skills(&skills);
    let summary: Vec<(String, usize)> = groups.iter().map(|g| (g.category.clone(), g.skills.len())).collect();
    assert_eq!(summary, vec![("X".to_string(), 1), ("".to_string(), 2)]);
}

#[test]
fn pages_carry_their_stylesheets() {
    let s = site();
    let home = home_page(&s, vec![], vec![], vec![], None);
    assert_eq!(home.css, with_base(HOME));
    assert_eq!(home.intro_text, "");
    let intro = Setting { id: None, key: "about_intro".into(), value: "Hi!".into(), updated_at: at(0) };
    assert_eq!(home_page(&s, vec![], vec![], vec![], Some(intro)).intro_text, "Hi!");
    assert_eq!(projects_page(&s, vec![]).css, combine(&[HOME, PROJECTS]));
    let links = vec![SocialLink { id: None, platform: "github".into(), url: "u".into(), icon: "github".into(), order_index: 1 }];
    let contact = contact_page(&s, links);
    assert_eq!(contact.css, with_base(CONTACT));
    assert_eq!(contact.social_links.len(), 1);
    assert_eq!(not_found_page(&s).css, with_base(ERROR_404));
    assert_eq!(not_found_page(&s).site.title, "Software Engineer");
    let blog = blog_page(&s, vec![rendered("a", &["b", "a", "b"])]);
    assert_eq!(blog.tags, vec!["a", "b"]);
    assert_eq!(blog.css, with_base(BLOG));
}

#[test]
fn about_page_renders_content_and_groups() {
    let r = MarkdownRenderer::new();
    let s = site();
    let content = Setting { id: None, key: "about_content".into(), value: "## About Me".into(), updated_at: at(0) };
    let page = about_page(&r, &s, Some(content), &vec![skill("Rust", "Lang")], vec![], vec![]);
    assert_eq!(page.content_html, "<h2>About Me</h2>\n");
    assert_eq!(page.skill_groups.len(), 1);
    assert_eq!(page.css, with_base(ABOUT));
    let page = about_page(&r, &s, None, &vec![], vec![], vec![]);
    assert_eq!(page.content_html, "");
}

#[test]
fn missing_items_are_not_found() {
    let r = MarkdownRenderer::new();
    let s = site();
    match project_page(&r, &s, "nope", None) {
        Err(m) => assert_eq!(m, "Project 'nope' not found"),
        Ok(_) => panic!("expected not found"),
    }
    match blog_post_page(&r, &s, "gone", None) {
        Err(m) => assert_eq!(m, "Blog post 'gone' not found"),
        Ok(_) => panic!("expected not found"),
    }
    match blog_post_page(&r, &s, "hello", Some(post("hello", &[], "Hi *there*"))) {
        Ok(t) => {
            assert_eq!(t.post.content_html, "<p>Hi <em>there</em></p>\n");
            assert_eq!(t.css, with_base(BLOG));
        }
        Err(_) => panic!("expected a page"),
    }
}

#[test]
fn posts_are_rendered_in_order() {
    let r = MarkdownRenderer::new();
    let out = render_posts(&r, &vec![post("a", &[], "*a*"), post("b", &[], "b")]);
    assert_eq!(out.len(), 2);
    assert_eq!(out[0].content_html, "<p><em>a</em></p>\n");
    assert_eq!(out[1].slug, "b");
}

#[test]
fn posts_query_follows_the_tag() {
    let q = PostsFilterQuery { tag: Some("rust".into()) };
    assert_eq!(q.statement(), (PUBLISHED_POSTS_WITH_TAG, Some("rust".to_string())));
    let q = PostsFilterQuery { tag: None };
    assert_eq!(q.statement(), (PUBLISHED_POSTS, None));
}

#[test]
fn create_post_validation() {
    let ok = CreateBlogPost { title: "T".into(), slug: "t".into(), excerpt: "".into(), content: "".into(), tags: vec![], published: false };
    assert!(ok.validate().is_ok());
    let bad = CreateBlogPost { title: "".into(), slug: "s".repeat(201), excerpt: "e".repeat(501), content: "".into(), tags: vec![], published: true };
    let errors = bad.validate().unwrap_err();
    let fields: Vec<&str> = errors.iter().map(|e| e.field.as_str()).collect();
    assert_eq!(fields, vec!["title", "slug", "excerpt"]);
    assert!(errors.iter().all(|e| e.code == "length"));
}

#[test]
fn template_errors_become_500() {
    match template_response(Ok("<p>x</p>".into())) {
        PageResponse::Html(h) => assert_eq!(h, "<p>x</p>"),
        _ => panic!(),
    }
    match template_response(Err("missing field".into())) {
        PageResponse::Error { status, body } => {
            assert_eq!(status, 500);
            assert_eq!(body, "Template error: missing field");
        }
        _ => panic!(),
    }
}

#[test]
fn seeding_only_into_an_empty_database() {
    assert!(portfolio::models::should_seed(0));
    assert!(!portfolio::models::should_seed(3));
}
