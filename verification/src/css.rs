//! Page stylesheets, inlined into each page so that no stylesheet request
//! blocks rendering.
//!
//! The constants below are minimal stand-in stylesheets: the site's full
//! css files are not part of this repository. The functions combine
//! whatever stylesheets they are given.

use vstd::prelude::*;
use vstd::string::*;

verus! {

/// Styles shared by every page.
pub const BASE: &'static str = ":root{color-scheme:dark light}*{box-sizing:border-box}body{margin:0}";

/// Styles of the home page.
pub const HOME: &'static str = ".hero{display:grid}";

/// Styles of the projects pages.
pub const PROJECTS: &'static str = ".project-grid{display:grid}";

/// Styles of the blog pages.
pub const BLOG: &'static str = ".post{max-width:72ch}";

/// Styles of the about page.
pub const ABOUT: &'static str = ".skills{display:flex}";

/// Styles of the contact page.
pub const CONTACT: &'static str = ".contact-form{display:grid}";

/// Styles of the not-found page.
pub const ERROR_404: &'static str = ".not-found{text-align:center}";

/// The stylesheet of a page: the base styles, a newline, then the page's own.
pub open spec fn base_with(page_css: Seq<char>) -> Seq<char> {
    BASE@ + seq!['\n'] + page_css
}

/// The base styles followed, for each file in order, by a newline and that file.
pub open spec fn combined(files: Seq<Seq<char>>) -> Seq<char>
    decreases files.len(),
{
    if files.len() == 0 {
        BASE@
    } else {
        combined(files.drop_last()) + seq!['\n'] + files.last()
    }
}

/// Combining a single file gives the same stylesheet as adding it to the
/// base styles.
pub proof fn law_combine_one(page_css: Seq<char>)
    ensures
        combined(seq![page_css]) == base_with(page_css),
{
    let files = seq![page_css];
    assert(files.drop_last() =~= Seq::<Seq<char>>::empty());
    assert(combined(files.drop_last()) == BASE@);
    assert(files.last() == page_css);
    assert(combined(files) == BASE@ + seq!['\n'] + page_css);
}

/// Concatenate base CSS with page-specific CSS.
pub fn with_base(page_css: &str) -> (css: String)
    ensures
        css@ == base_with(page_css@),
{
    let mut css = BASE.to_owned();
    let newline = "\n";
    proof {
        reveal_strlit("\n");
    }
    css.append(newline);
    css.append(page_css);
    css
}

/// For pages needing multiple CSS files (e.g., projects + home).
pub fn combine(css_files: &[&str]) -> (css: String)
    ensures
        css@ == combined(css_files@.map_values(|f: &str| f@)),
{
    let ghost files = css_files@.map_values(|f: &str| f@);
    let mut css = BASE.to_owned();
    let newline = "\n";
    proof {
        reveal_strlit("\n");
    }
    let mut i: usize = 0;
    while i < css_files.len()
        invariant
            i <= css_files@.len(),
            files == css_files@.map_values(|f: &str| f@),
            newline@ == seq!['\n'],
            css@ == combined(files.take(i as int)),
        decreases css_files@.len() - i,
    {
        css.append(newline);
        css.append(css_files[i]);
        proof {
            assert(files.take(i + 1).drop_last() =~= files.take(i as int));
        }
        i = i + 1;
    }
    proof {
        assert(files.take(css_files@.len() as int) =~= files);
    }
    css
}

} // verus!
