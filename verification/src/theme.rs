//! The decisions of the page scripts: the colour theme, the delays of the
//! reveal animations and the mobile navigation toggle.

use vstd::prelude::*;
use vstd::string::*;

verus! {

/// The theme after a toggle: `latte` after `mocha`, `mocha` after anything
/// else.
pub open spec fn toggled(current: Seq<char>) -> Seq<char> {
    if current == "mocha"@ {
        "latte"@
    } else {
        "mocha"@
    }
}

/// The theme to switch to from `current` (the page's `data-theme`, empty
/// when it has none).
pub fn next_theme(current: &str) -> (theme: &'static str)
    ensures
        theme@ == toggled(current@),
{
    if current.to_owned() == "mocha".to_owned() {
        "latte"
    } else {
        "mocha"
    }
}

/// Toggling twice gives back either theme.
pub proof fn lemma_toggle_twice(current: Seq<char>)
    requires
        current == "mocha"@ || current == "latte"@,
    ensures
        toggled(toggled(current)) == current,
{
    reveal_strlit("mocha");
    reveal_strlit("latte");
    assert("mocha"@ != "latte"@) by {
        assert("mocha"@[0] != "latte"@[0]);
    }
}

/// The theme a page starts with: the stored choice, else `latte` when the
/// system prefers a light scheme and `mocha` otherwise.
pub open spec fn starting_theme(stored: Option<Seq<char>>, prefers_light: bool) -> Seq<char> {
    match stored {
        Some(t) => t,
        None => if prefers_light {
            "latte"@
        } else {
            "mocha"@
        },
    }
}

/// The theme a page starts with.
pub fn initial_theme(stored: Option<String>, prefers_light: bool) -> (theme: String)
    ensures
        theme@ == starting_theme(
            match stored {
                Some(t) => Some(t@),
                None => None,
            },
            prefers_light,
        ),
{
    match stored {
        Some(t) => t,
        None => if prefers_light {
            "latte".to_owned()
        } else {
            "mocha".to_owned()
        },
    }
}

/// The delay, in milliseconds, before the `index`-th element is revealed
/// when the page loads: 100 ms apart (converted to `i32` as `as` does).
pub fn reveal_delay(index: u32) -> (ms: i32)
    requires
        index * 100 <= u32::MAX,
    ensures
        ms == (index * 100) as i32,
{
    #[verifier::truncate]
    let ms = (index * 100) as i32;
    ms
}

/// The delay, in milliseconds, before the `index`-th element still hidden
/// is revealed after new content arrives: 50 ms apart (the index converted
/// to `i32` as `as` does).
pub fn refresh_delay(index: u32) -> (ms: i32)
    requires
        i32::MIN <= 50 * (index as i32) <= i32::MAX,
    ensures
        ms == 50 * (index as i32),
{
    #[verifier::truncate]
    let i = index as i32;
    50 * i
}

/// The state of the mobile navigation after a click on its toggle: whether
/// the menu is open and the toggle's `aria-expanded` value.
pub struct NavState {
    pub open: bool,
    pub aria_expanded: &'static str,
}

/// The navigation after a click, from whether it was open.
pub fn nav_toggle(was_open: bool) -> (s: NavState)
    ensures
        s.open == !was_open,
        s.aria_expanded@ == if was_open {
            "false"@
        } else {
            "true"@
        },
{
    if was_open {
        NavState { open: false, aria_expanded: "false" }
    } else {
        NavState { open: true, aria_expanded: "true" }
    }
}

} // verus!
