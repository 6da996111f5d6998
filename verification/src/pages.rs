//! What each page shows: the data a page handler fetched, assembled into
//! the page's template, with the skills grouped by category and the blog's
//! tags collected.

use vstd::prelude::*;
use vstd::string::*;

use crate::css::{base_with, combine, combined, with_base, ABOUT, BLOG, CONTACT, ERROR_404, HOME, PROJECTS};
use crate::markdown::{is_rendering, MarkdownRenderer};
use crate::models::{
    clone_opt_string, clone_record_id, BlogPost, BlogPostRendered, Experience, Project,
    ProjectRendered, Setting, SiteMeta, Skill, SkillGroup, SocialLink,
};
use crate::templates::{
    AboutTemplate, BlogPostTemplate, BlogTemplate, ContactTemplate, HomeTemplate,
    NotFoundTemplate, ProjectTemplate, ProjectsTemplate,
};
use crate::text::chars_of;

verus! {

// ---------------------------------------------------------------------------
// Tags
// ---------------------------------------------------------------------------

/// Whether `a` sorts before `b`: character by character by code point, a
/// proper prefix first. This is the order of `String`'s `Ord` (UTF-8
/// preserves the order of code points).
pub open spec fn lex_lt(a: Seq<char>, b: Seq<char>) -> bool
    decreases a.len(),
{
    if a.len() == 0 {
        b.len() > 0
    } else if b.len() == 0 {
        false
    } else if a[0] != b[0] {
        a[0] < b[0]
    } else {
        lex_lt(a.drop_first(), b.drop_first())
    }
}

/// No text sorts before itself.
pub proof fn lemma_lex_irreflexive(a: Seq<char>)
    ensures
        !lex_lt(a, a),
    decreases a.len(),
{
    if a.len() > 0 {
        lemma_lex_irreflexive(a.drop_first());
    }
}

/// The order is transitive.
pub proof fn lemma_lex_transitive(a: Seq<char>, b: Seq<char>, c: Seq<char>)
    requires
        lex_lt(a, b),
        lex_lt(b, c),
    ensures
        lex_lt(a, c),
    decreases a.len(),
{
    if a.len() > 0 && b.len() > 0 && c.len() > 0 && a[0] == b[0] && b[0] == c[0] {
        lemma_lex_transitive(a.drop_first(), b.drop_first(), c.drop_first());
    }
}

/// Any two texts are equal or one sorts before the other.
pub proof fn lemma_lex_total(a: Seq<char>, b: Seq<char>)
    ensures
        a == b || lex_lt(a, b) || lex_lt(b, a),
    decreases a.len(),
{
    if a.len() > 0 && b.len() > 0 {
        if a[0] == b[0] {
            lemma_lex_total(a.drop_first(), b.drop_first());
            if a.drop_first() == b.drop_first() {
                assert(a =~= seq![a[0]] + a.drop_first());
                assert(b =~= seq![b[0]] + b.drop_first());
            }
        } else {
            assert(a[0] < b[0] || b[0] < a[0]);
        }
    } else if a.len() == 0 && b.len() == 0 {
        assert(a =~= b);
    }
}

/// Whether `a` sorts before `b`.
fn lex_less(a: &Vec<char>, b: &Vec<char>) -> (r: bool)
    ensures
        r == lex_lt(a@, b@),
{
    let mut i: usize = 0;
    assert(a@.skip(0) =~= a@);
    assert(b@.skip(0) =~= b@);
    while i < a.len() && i < b.len() && a[i] == b[i]
        invariant
            i <= a@.len(),
            i <= b@.len(),
            lex_lt(a@, b@) == lex_lt(a@.skip(i as int), b@.skip(i as int)),
        decreases a@.len() - i,
    {
        proof {
            let sa = a@.skip(i as int);
            let sb = b@.skip(i as int);
            assert(sa.drop_first() =~= a@.skip(i + 1));
            assert(sb.drop_first() =~= b@.skip(i + 1));
        }
        i = i + 1;
    }
    let ghost sa = a@.skip(i as int);
    let ghost sb = b@.skip(i as int);
    if i == a.len() {
        i < b.len()
    } else if i == b.len() {
        false
    } else {
        assert(sa[0] == a@[i as int] && sb[0] == b@[i as int]);
        a[i] < b[i]
    }
}

/// Whether the texts of `s` are in strictly increasing order.
pub open spec fn strictly_sorted(s: Seq<Seq<char>>) -> bool {
    forall|i: int, j: int| 0 <= i < j < s.len() ==> lex_lt(#[trigger] s[i], #[trigger] s[j])
}

/// The texts of a list of strings.
pub open spec fn texts(v: Seq<String>) -> Seq<Seq<char>> {
    v.map_values(|s: String| s@)
}

/// Whether `t` is a tag of a post among the first `i` of `posts`, or among
/// the first `j` tags of post `i`.
pub open spec fn tag_seen(posts: Seq<BlogPostRendered>, i: int, j: int, t: Seq<char>) -> bool {
    exists|p: int, q: int|
        0 <= p < posts.len() && 0 <= q < posts[p].tags@.len() && (p < i || (p == i && q < j))
            && #[trigger] posts[p].tags@[q]@ == t
}

/// Whether `t` is a tag of some post.
pub open spec fn is_tag_of(posts: Seq<BlogPostRendered>, t: Seq<char>) -> bool {
    exists|p: int, q: int|
        0 <= p < posts.len() && 0 <= q < posts[p].tags@.len() && #[trigger] posts[p].tags@[q]@ == t
}

/// Adds `tag` to the sorted, duplicate-free `tags` (whose characters `keys`
/// holds) unless it is there already.
fn insert_tag(keys: &mut Vec<Vec<char>>, tags: &mut Vec<String>, tag: &String)
    requires
        old(keys)@.len() == old(tags)@.len(),
        forall|k: int| 0 <= k < old(keys)@.len() ==> (#[trigger] old(keys)@[k])@ == old(tags)@[k]@,
        strictly_sorted(texts(old(tags)@)),
    ensures
        final(keys)@.len() == final(tags)@.len(),
        forall|k: int| 0 <= k < final(keys)@.len() ==> (#[trigger] final(keys)@[k])@ == final(tags)@[k]@,
        strictly_sorted(texts(final(tags)@)),
        forall|t: Seq<char>|
            texts(final(tags)@).contains(t) <==> (texts(old(tags)@).contains(t) || t == tag@),
{
    let ghost old_texts = texts(tags@);
    let t = chars_of(tag.as_str());
    let mut i: usize = 0;
    while i < keys.len() && lex_less(&keys[i], &t)
        invariant
            i <= keys@.len(),
            keys@ == old(keys)@,
            tags@ == old(tags)@,
            keys@.len() == tags@.len(),
            forall|k: int| 0 <= k < keys@.len() ==> (#[trigger] keys@[k])@ == tags@[k]@,
            t@ == tag@,
            forall|k: int| 0 <= k < i ==> lex_lt(#[trigger] old_texts[k], tag@),
            old_texts == texts(tags@),
        decreases keys@.len() - i,
    {
        assert(old_texts[i as int] == keys@[i as int]@);
        i = i + 1;
    }
    if i < tags.len() && tags[i].eq(tag) {
        assert(old_texts[i as int] == tag@);
        assert(old_texts.contains(tag@));
        return;
    }
    proof {
        if i < old_texts.len() {
            assert(old_texts[i as int] == keys@[i as int]@);
            assert(!lex_lt(old_texts[i as int], tag@));
            assert(old_texts[i as int] != tag@);
            lemma_lex_total(old_texts[i as int], tag@);
        }
    }
    keys.insert(i, t);
    tags.insert(i, tag.clone());
    proof {
        let nt = texts(tags@);
        assert(nt =~= old_texts.insert(i as int, tag@));
        assert forall|a: int, b: int| 0 <= a < b < nt.len() implies lex_lt(#[trigger] nt[a], #[trigger] nt[b]) by {
            if b < i {
            } else if b == i {
                assert(lex_lt(old_texts[a], tag@));
            } else if a == i {
                if b - 1 > i {
                    assert(lex_lt(old_texts[i as int], old_texts[b - 1]));
                    lemma_lex_transitive(tag@, old_texts[i as int], old_texts[b - 1]);
                }
            } else if a < i {
                assert(nt[a] == old_texts[a]);
                assert(nt[b] == old_texts[b - 1]);
            } else {
                assert(nt[a] == old_texts[a - 1]);
                assert(nt[b] == old_texts[b - 1]);
            }
        }
        assert forall|t: Seq<char>| nt.contains(t) <==> (old_texts.contains(t) || t == tag@) by {
            if nt.contains(t) {
                let k = choose|k: int| 0 <= k < nt.len() && nt[k] == t;
                if k < i {
                    assert(old_texts[k] == t);
                } else if k > i {
                    assert(old_texts[k - 1] == t);
                }
            }
            if old_texts.contains(t) {
                let k = choose|k: int| 0 <= k < old_texts.len() && old_texts[k] == t;
                if k < i {
                    assert(nt[k] == t);
                } else {
                    assert(nt[k + 1] == t);
                }
            }
            if t == tag@ {
                assert(nt[i as int] == t);
            }
        }
        assert forall|k: int| 0 <= k < keys@.len() implies (#[trigger] keys@[k])@ == tags@[k]@ by {
            if k < i {
            } else if k > i {
                assert(keys@[k] == old(keys)@[k - 1]);
            }
        }
    }
}

/// All tags of the posts, sorted and without duplicates.
pub fn collect_tags(posts: &Vec<BlogPostRendered>) -> (tags: Vec<String>)
    ensures
        strictly_sorted(texts(tags@)),
        forall|t: Seq<char>| texts(tags@).contains(t) <==> is_tag_of(posts@, t),
{
    let mut keys: Vec<Vec<char>> = Vec::new();
    let mut tags: Vec<String> = Vec::new();
    let mut i: usize = 0;
    while i < posts.len()
        invariant
            i <= posts@.len(),
            keys@.len() == tags@.len(),
            forall|k: int| 0 <= k < keys@.len() ==> (#[trigger] keys@[k])@ == tags@[k]@,
            strictly_sorted(texts(tags@)),
            forall|t: Seq<char>| texts(tags@).contains(t) <==> tag_seen(posts@, i as int, 0, t),
        decreases posts@.len() - i,
    {
        let post_tags = &posts[i].tags;
        let mut j: usize = 0;
        while j < post_tags.len()
            invariant
                i < posts@.len(),
                post_tags == &posts@[i as int].tags,
                j <= post_tags@.len(),
                keys@.len() == tags@.len(),
                forall|k: int| 0 <= k < keys@.len() ==> (#[trigger] keys@[k])@ == tags@[k]@,
                strictly_sorted(texts(tags@)),
                forall|t: Seq<char>|
                    texts(tags@).contains(t) <==> tag_seen(posts@, i as int, j as int, t),
            decreases post_tags@.len() - j,
        {
            let ghost before = texts(tags@);
            insert_tag(&mut keys, &mut tags, &post_tags[j]);
            proof {
                assert forall|t: Seq<char>|
                    texts(tags@).contains(t) <==> tag_seen(posts@, i as int, j + 1, t) by {
                    if tag_seen(posts@, i as int, j + 1, t) {
                        let (p, q) = choose|p: int, q: int|
                            0 <= p < posts@.len() && 0 <= q < posts@[p].tags@.len() && (p < i || (p
                                == i && q < j + 1)) && #[trigger] posts@[p].tags@[q]@ == t;
                        if !(p == i && q == j) {
                            assert(tag_seen(posts@, i as int, j as int, t));
                        }
                    }
                    if tag_seen(posts@, i as int, j as int, t) {
                        let (p, q) = choose|p: int, q: int|
                            0 <= p < posts@.len() && 0 <= q < posts@[p].tags@.len() && (p < i || (p
                                == i && q < j)) && #[trigger] posts@[p].tags@[q]@ == t;
                        assert(tag_seen(posts@, i as int, j + 1, t));
                    }
                    if t == post_tags@[j as int]@ {
                        assert(posts@[i as int].tags@[j as int]@ == t);
                        assert(tag_seen(posts@, i as int, j + 1, t));
                    }
                }
            }
            j = j + 1;
        }
        proof {
            assert forall|t: Seq<char>|
                tag_seen(posts@, i as int, j as int, t) <==> tag_seen(posts@, i + 1, 0, t) by {
                if tag_seen(posts@, i + 1, 0, t) {
                    let (p, q) = choose|p: int, q: int|
                        0 <= p < posts@.len() && 0 <= q < posts@[p].tags@.len() && (p < i + 1 || (p
                            == i + 1 && q < 0)) && #[trigger] posts@[p].tags@[q]@ == t;
                    assert(tag_seen(posts@, i as int, j as int, t));
                }
                if tag_seen(posts@, i as int, j as int, t) {
                    let (p, q) = choose|p: int, q: int|
                        0 <= p < posts@.len() && 0 <= q < posts@[p].tags@.len() && (p < i || (p == i
                            && q < j)) && #[trigger] posts@[p].tags@[q]@ == t;
                    assert(tag_seen(posts@, i + 1, 0, t));
                }
            }
        }
        i = i + 1;
    }
    proof {
        assert forall|t: Seq<char>| tag_seen(posts@, i as int, 0, t) <==> is_tag_of(posts@, t) by {
            if is_tag_of(posts@, t) {
                let (p, q) = choose|p: int, q: int|
                    0 <= p < posts@.len() && 0 <= q < posts@[p].tags@.len() && #[trigger] posts@[p].tags@[q]@ == t;
                assert(tag_seen(posts@, i as int, 0, t));
            }
        }
    }
    tags
}

// ---------------------------------------------------------------------------
// Rendering
// ---------------------------------------------------------------------------

/// Each post with its content rendered to HTML.
pub fn render_posts(renderer: &MarkdownRenderer, posts: &Vec<BlogPost>) -> (r: Vec<BlogPostRendered>)
    ensures
        r@.len() == posts@.len(),
        forall|i: int|
            0 <= i < posts@.len() ==> (#[trigger] posts@[i]).rendered_as(r@[i].content_html@, r@[i])
                && is_rendering(posts@[i].content@, r@[i].content_html@),
{
    let mut r: Vec<BlogPostRendered> = Vec::new();
    let mut i: usize = 0;
    while i < posts.len()
        invariant
            i <= posts@.len(),
            r@.len() == i,
            forall|k: int|
                0 <= k < i ==> (#[trigger] posts@[k]).rendered_as(r@[k].content_html@, r@[k])
                    && is_rendering(posts@[k].content@, r@[k].content_html@),
        decreases posts@.len() - i,
    {
        let post = &posts[i];
        let html = renderer.render(post.content.as_str());
        r.push(post.to_rendered(html));
        i = i + 1;
    }
    r
}

/// Each project with its content rendered to HTML.
pub fn render_projects(renderer: &MarkdownRenderer, projects: &Vec<Project>) -> (r: Vec<ProjectRendered>)
    ensures
        r@.len() == projects@.len(),
        forall|i: int|
            0 <= i < projects@.len() ==> (#[trigger] projects@[i]).rendered_as(r@[i].content_html@, r@[i])
                && is_rendering(projects@[i].content@, r@[i].content_html@),
{
    let mut r: Vec<ProjectRendered> = Vec::new();
    let mut i: usize = 0;
    while i < projects.len()
        invariant
            i <= projects@.len(),
            r@.len() == i,
            forall|k: int|
                0 <= k < i ==> (#[trigger] projects@[k]).rendered_as(r@[k].content_html@, r@[k])
                    && is_rendering(projects@[k].content@, r@[k].content_html@),
        decreases projects@.len() - i,
    {
        let project = &projects[i];
        let html = renderer.render(project.content.as_str());
        r.push(project.to_rendered(html));
        i = i + 1;
    }
    r
}

// ---------------------------------------------------------------------------
// Pages
// ---------------------------------------------------------------------------

/// The stylesheet of the projects pages: the home page's styles, then the
/// projects styles, after the base styles.
pub open spec fn projects_css() -> Seq<char> {
    combined(seq![HOME@, PROJECTS@])
}

/// The stylesheet of the projects pages.
fn projects_stylesheet() -> (css: String)
    ensures
        css@ == projects_css(),
{
    let files: [&str; 2] = [HOME, PROJECTS];
    let css = combine(&files);
    assert(files@.map_values(|f: &str| f@) =~= seq![HOME@, PROJECTS@]);
    css
}

/// The home page: featured projects, recent posts, social links and the
/// introduction (the `about_intro` setting's value, empty without it).
pub fn home_page(
    site: &SiteMeta,
    featured_projects: Vec<ProjectRendered>,
    recent_posts: Vec<BlogPostRendered>,
    social_links: Vec<SocialLink>,
    intro: Option<Setting>,
) -> (page: HomeTemplate)
    ensures
        page.site == *site,
        page.featured_projects == featured_projects,
        page.recent_posts == recent_posts,
        page.social_links == social_links,
        page.intro_text@ == match intro {
            Some(s) => s.value@,
            None => Seq::<char>::empty(),
        },
        page.css@ == base_with(HOME@),
{
    let intro_text = match intro {
        Some(s) => s.value,
        None => String::new(),
    };
    HomeTemplate {
        site: site.duplicate(),
        featured_projects,
        recent_posts,
        social_links,
        intro_text,
        css: with_base(HOME),
    }
}

/// The about page: the `about_content` setting rendered from markdown
/// (empty without it), the skills grouped by category, the social links and
/// the work experience.
pub fn about_page(
    renderer: &MarkdownRenderer,
    site: &SiteMeta,
    about_content: Option<Setting>,
    skills: &Vec<Skill>,
    social_links: Vec<SocialLink>,
    experiences: Vec<Experience>,
) -> (page: AboutTemplate)
    ensures
        page.site == *site,
        match about_content {
            Some(s) => is_rendering(s.value@, page.content_html@),
            None => page.content_html@ == Seq::<char>::empty(),
        },
        page.skill_groups@.map_values(|g: SkillGroup| group_view(g)) == grouping(skills@).1,
        page.social_links == social_links,
        page.experiences == experiences,
        page.css@ == base_with(ABOUT@),
{
    let content_html = match about_content {
        Some(s) => renderer.render(s.value.as_str()),
        None => String::new(),
    };
    AboutTemplate {
        site: site.duplicate(),
        content_html,
        skill_groups: group_skills(skills),
        social_links,
        experiences,
        css: with_base(ABOUT),
    }
}

/// The projects page.
pub fn projects_page(site: &SiteMeta, projects: Vec<ProjectRendered>) -> (page: ProjectsTemplate)
    ensures
        page.site == *site,
        page.projects == projects,
        page.css@ == projects_css(),
{
    ProjectsTemplate { site: site.duplicate(), projects, css: projects_stylesheet() }
}

/// The message for a missing item: its kind, the slug in quotes, then
/// `not found`.
pub open spec fn not_found_message(kind: Seq<char>, slug: Seq<char>) -> Seq<char> {
    kind + " '"@ + slug + "' not found"@
}

/// The message for a missing item of kind `kind` with slug `slug`.
fn not_found_text(kind: &str, slug: &str) -> (m: String)
    ensures
        m@ == not_found_message(kind@, slug@),
{
    let mut m = kind.to_owned();
    m.append(" '");
    m.append(slug);
    m.append("' not found");
    m
}

/// The page of the project with slug `slug`, found as `project`, or the
/// not-found message when there is none.
pub fn project_page(
    renderer: &MarkdownRenderer,
    site: &SiteMeta,
    slug: &str,
    project: Option<Project>,
) -> (page: Result<ProjectTemplate, String>)
    ensures
        match project {
            Some(p) => page matches Ok(t) && t.site == *site && p.rendered_as(
                t.project.content_html@,
                t.project,
            ) && is_rendering(p.content@, t.project.content_html@) && t.css@ == projects_css(),
            None => page matches Err(m) && m@ == not_found_message("Project"@, slug@),
        },
{
    match project {
        Some(p) => {
            let html = renderer.render(p.content.as_str());
            Ok(
                ProjectTemplate {
                    site: site.duplicate(),
                    project: p.to_rendered(html),
                    css: projects_stylesheet(),
                },
            )
        },
        None => Err(not_found_text("Project", slug)),
    }
}

/// The blog page: the posts and all their tags, sorted, each once.
pub fn blog_page(site: &SiteMeta, posts: Vec<BlogPostRendered>) -> (page: BlogTemplate)
    ensures
        page.site == *site,
        page.posts == posts,
        strictly_sorted(texts(page.tags@)),
        forall|t: Seq<char>| texts(page.tags@).contains(t) <==> is_tag_of(posts@, t),
        page.css@ == base_with(BLOG@),
{
    let tags = collect_tags(&posts);
    BlogTemplate { site: site.duplicate(), posts, tags, css: with_base(BLOG) }
}

/// The page of the published post with slug `slug`, found as `post`, or
/// the not-found message when there is none.
pub fn blog_post_page(
    renderer: &MarkdownRenderer,
    site: &SiteMeta,
    slug: &str,
    post: Option<BlogPost>,
) -> (page: Result<BlogPostTemplate, String>)
    ensures
        match post {
            Some(p) => page matches Ok(t) && t.site == *site && p.rendered_as(
                t.post.content_html@,
                t.post,
            ) && is_rendering(p.content@, t.post.content_html@) && t.css@ == base_with(BLOG@),
            None => page matches Err(m) && m@ == not_found_message("Blog post"@, slug@),
        },
{
    match post {
        Some(p) => {
            let html = renderer.render(p.content.as_str());
            Ok(BlogPostTemplate { site: site.duplicate(), post: p.to_rendered(html), css: with_base(BLOG) })
        },
        None => Err(not_found_text("Blog post", slug)),
    }
}

/// The contact page.
pub fn contact_page(site: &SiteMeta, social_links: Vec<SocialLink>) -> (page: ContactTemplate)
    ensures
        page.site == *site,
        page.social_links == social_links,
        page.css@ == base_with(CONTACT@),
{
    ContactTemplate { site: site.duplicate(), social_links, css: with_base(CONTACT) }
}

/// The not-found page.
pub fn not_found_page(site: &SiteMeta) -> (page: NotFoundTemplate)
    ensures
        page.site == *site,
        page.css@ == base_with(ERROR_404@),
{
    NotFoundTemplate { site: site.duplicate(), css: with_base(ERROR_404) }
}

/// The query for the blog's post list.
#[derive(Clone, Debug)]
pub struct PostsFilterQuery {
    pub tag: Option<String>,
}

/// The published posts, newest first.
pub const PUBLISHED_POSTS: &'static str = "SELECT * FROM posts WHERE published = true ORDER BY created_at DESC";

/// The published posts with the tag bound to `$tag`, newest first.
pub const PUBLISHED_POSTS_WITH_TAG: &'static str = "SELECT * FROM posts WHERE published = true AND $tag IN tags ORDER BY created_at DESC";

impl PostsFilterQuery {
    /// The statement that lists the posts, and the tag to bind to `$tag`:
    /// all published posts, or those with the requested tag.
    pub fn statement(&self) -> (r: (&'static str, Option<String>))
        ensures
            match self.tag {
                Some(t) => r.0 == PUBLISHED_POSTS_WITH_TAG && r.1 == Some(t),
                None => r.0 == PUBLISHED_POSTS && r.1 == None::<String>,
            },
    {
        match &self.tag {
            Some(t) => (PUBLISHED_POSTS_WITH_TAG, Some(t.clone())),
            None => (PUBLISHED_POSTS, None),
        }
    }
}

// ---------------------------------------------------------------------------
// Skills
// ---------------------------------------------------------------------------

/// A group of skills as values: its category and its skills.
pub open spec fn group_view(g: SkillGroup) -> (Seq<char>, Seq<Skill>) {
    (g.category@, g.skills@)
}

/// Groups `skills` in order: a skill whose category differs from the
/// current one opens a new group, and becomes the current category; any
/// other is added to the last group. The current category starts empty, so
/// skills of empty category before the first group are left out. Returns
/// the current category and the groups.
pub open spec fn grouping(skills: Seq<Skill>) -> (Seq<char>, Seq<(Seq<char>, Seq<Skill>)>)
    decreases skills.len(),
{
    if skills.len() == 0 {
        (Seq::empty(), Seq::empty())
    } else {
        let prev = grouping(skills.drop_last());
        let s = skills.last();
        if s.category@ != prev.0 {
            (s.category@, prev.1.push((s.category@, seq![s])))
        } else if prev.1.len() > 0 {
            let last = prev.1.last();
            (prev.0, prev.1.update(prev.1.len() - 1, (last.0, last.1.push(s))))
        } else {
            prev
        }
    }
}

/// The skills of a list of groups, in order.
pub open spec fn group_members(groups: Seq<(Seq<char>, Seq<Skill>)>) -> Seq<Skill>
    decreases groups.len(),
{
    if groups.len() == 0 {
        Seq::empty()
    } else {
        group_members(groups.drop_last()) + groups.last().1
    }
}

/// The position of the first skill with a category, or the number of
/// skills when none has one.
pub open spec fn first_categorized(skills: Seq<Skill>) -> int
    decreases skills.len(),
{
    if skills.len() == 0 {
        0
    } else if first_categorized(skills.drop_last()) < skills.len() - 1 {
        first_categorized(skills.drop_last())
    } else if skills.last().category@.len() > 0 {
        skills.len() - 1
    } else {
        skills.len() as int
    }
}

/// Grouping keeps every skill from the first one with a category on, in
/// order; every group is non-empty and its skills share its category; and
/// neighbouring groups have different categories.
pub proof fn law_grouping(skills: Seq<Skill>)
    ensures
        0 <= first_categorized(skills) <= skills.len(),
        forall|i: int| 0 <= i < first_categorized(skills) ==> (#[trigger] skills[i]).category@.len() == 0,
        group_members(grouping(skills).1) == skills.skip(first_categorized(skills)),
        forall|g: int| 0 <= g < grouping(skills).1.len() ==> (#[trigger] grouping(skills).1[g]).1.len() > 0,
        forall|g: int, k: int|
            0 <= g < grouping(skills).1.len() && 0 <= k < grouping(skills).1[g].1.len() ==> (#[trigger] grouping(skills).1[g].1[k]).category@ == grouping(skills).1[g].0,
        forall|g: int|
            0 <= g < grouping(skills).1.len() - 1 ==> (#[trigger] grouping(skills).1[g]).0 != grouping(skills).1[g + 1].0,
        grouping(skills).1.len() == 0 ==> grouping(skills).0.len() == 0,
        grouping(skills).1.len() > 0 ==> grouping(skills).0 == grouping(skills).1.last().0,
    decreases skills.len(),
{
    if skills.len() == 0 {
        assert(skills.skip(0) =~= skills);
    } else {
        let init = skills.drop_last();
        law_grouping(init);
        let prev = grouping(init);
        let s = skills.last();
        let n = skills.len() - 1;
        let f = first_categorized(init);
        let gs = grouping(skills).1;
        assert forall|i: int| 0 <= i < first_categorized(skills) implies (#[trigger] skills[i]).category@.len() == 0 by {
            if i < n {
                assert(skills[i] == init[i]);
            }
        }
        if s.category@ != prev.0 {
            assert(gs == prev.1.push((s.category@, seq![s])));
            assert(gs.drop_last() =~= prev.1);
            if prev.1.len() == 0 {
                assert(f == n) by {
                    if f < n {
                        assert(init.skip(f).len() > 0);
                        assert(group_members(prev.1) =~= Seq::<Skill>::empty());
                    }
                }
                if s.category@.len() == 0 {
                    assert(s.category@ =~= prev.0);
                }
                assert(group_members(gs) =~= group_members(prev.1) + seq![s]);
                assert(skills.skip(n) =~= seq![s]);
            } else {
                assert(f < n) by {
                    if f >= n {
                        assert(init.skip(f) =~= Seq::<Skill>::empty());
                        assert(group_members(prev.1) == group_members(prev.1.drop_last()) + prev.1.last().1);
                    }
                }
                assert(skills.skip(f) =~= init.skip(f) + seq![s]);
            }
        } else if prev.1.len() > 0 {
            let last = prev.1.last();
            assert(gs == prev.1.update(prev.1.len() - 1, (last.0, last.1.push(s))));
            assert(f < n) by {
                if f >= n {
                    assert(init.skip(f) =~= Seq::<Skill>::empty());
                    assert(group_members(prev.1) == group_members(prev.1.drop_last()) + prev.1.last().1);
                }
            }
            assert(gs.drop_last() =~= prev.1.drop_last());
            assert(group_members(gs) == group_members(prev.1.drop_last()) + last.1.push(s));
            assert(group_members(prev.1) == group_members(prev.1.drop_last()) + last.1);
            assert(skills.skip(f) =~= init.skip(f) + seq![s]);
            assert(group_members(gs) =~= group_members(prev.1) + seq![s]);
            assert forall|g: int, k: int|
                0 <= g < gs.len() && 0 <= k < gs[g].1.len() implies (#[trigger] gs[g].1[k]).category@ == gs[g].0 by {
                if g < gs.len() - 1 {
                    assert(gs[g] == prev.1[g]);
                } else if k < last.1.len() {
                    assert(gs[g].1[k] == last.1[k]);
                }
            }
        } else {
            assert(s.category@.len() == 0);
            assert(f == n) by {
                if f < n {
                    assert(init.skip(f).len() > 0);
                    assert(group_members(prev.1) =~= Seq::<Skill>::empty());
                }
            }
            assert(skills.skip(skills.len() as int) =~= Seq::<Skill>::empty());
            assert(group_members(prev.1) =~= Seq::<Skill>::empty());
        }
    }
}

/// A copy of a skill.
pub fn clone_skill(s: &Skill) -> (r: Skill)
    ensures
        r == *s,
{
    Skill {
        id: clone_record_id(&s.id),
        name: s.name.clone(),
        category: s.category.clone(),
        proficiency: s.proficiency,
        icon: clone_opt_string(&s.icon),
        order_index: s.order_index,
    }
}

/// Group skills by category (the skills come sorted by category).
pub fn group_skills(skills: &Vec<Skill>) -> (groups: Vec<SkillGroup>)
    ensures
        groups@.map_values(|g: SkillGroup| group_view(g)) == grouping(skills@).1,
{
    let mut groups: Vec<SkillGroup> = Vec::new();
    let mut current_category = String::new();
    let mut i: usize = 0;
    while i < skills.len()
        invariant
            i <= skills@.len(),
            grouping(skills@.take(i as int)) == (current_category@, groups@.map_values(|g: SkillGroup| group_view(g))),
        decreases skills@.len() - i,
    {
        let skill = clone_skill(&skills[i]);
        let ghost prev_groups = groups@.map_values(|g: SkillGroup| group_view(g));
        proof {
            assert(skills@.take(i + 1).drop_last() =~= skills@.take(i as int));
            assert(skills@.take(i + 1).last() == skills@[i as int]);
        }
        if skill.category != current_category {
            current_category = skill.category.clone();
            let mut members: Vec<Skill> = Vec::new();
            let category = skill.category.clone();
            members.push(skill);
            groups.push(SkillGroup { category, skills: members });
            proof {
                assert(groups@.map_values(|g: SkillGroup| group_view(g)) =~= prev_groups.push((skills@[i as int].category@, seq![skills@[i as int]])));
            }
        } else if groups.len() > 0 {
            let mut last = groups.pop().unwrap();
            let ghost last_before = last;
            last.skills.push(skill);
            groups.push(last);
            proof {
                let lv = group_view(last_before);
                assert(prev_groups.last() == lv);
                assert(groups@.map_values(|g: SkillGroup| group_view(g)) =~= prev_groups.update(prev_groups.len() - 1, (lv.0, lv.1.push(skills@[i as int]))));
            }
        }
        i = i + 1;
    }
    proof {
        assert(skills@.take(skills@.len() as int) =~= skills@);
    }
    groups
}

} // verus!
