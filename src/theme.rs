//! Light or dark appearance, guessed from theme names in the environment.
use vstd::prelude::*;

use crate::paths::Environment;
use crate::text::{chars_of, string_from};

verus! {

#[derive(Debug, Clone, Copy, PartialEq, Eq, Structural)]
pub enum ThemePreference {
    Light,
    Dark,
}

/// What `str::to_lowercase` gives for `s`: the full Unicode lower-casing.
pub uninterp spec fn lower_of(s: Seq<char>) -> Seq<char>;

/// Relies on `str::to_lowercase`: the result depends on the characters alone.
#[verifier::external_body]
fn lowercase(s: &str) -> (r: String)
    ensures
        r@ == lower_of(s@),
{
    s.to_lowercase()
}

/// `word` occurs in `s`.
pub open spec fn contains(s: Seq<char>, word: Seq<char>) -> bool {
    exists|i: int| 0 <= i && i + word.len() <= s.len() && #[trigger] s.subrange(i, i + word.len()) == word
}

fn contains_word(s: &Vec<char>, word: &Vec<char>) -> (r: bool)
    ensures
        r == contains(s@, word@),
{
    let n = s.len();
    let w = word.len();
    if w > n {
        assert forall|i: int| 0 <= i && i + w <= n implies #[trigger] s@.subrange(i, i + w)
            != word@ by {}
        return false;
    }
    let mut i: usize = 0;
    while i <= n - w
        invariant
            n == s@.len(),
            w == word@.len(),
            w <= n,
            i <= n - w + 1,
            forall|k: int| 0 <= k < i ==> #[trigger] s@.subrange(k, k + w) != word@,
        decreases n - w + 1 - i,
    {
        let mut j: usize = 0;
        let mut same = true;
        while j < w
            invariant
                n == s@.len(),
                w == word@.len(),
                i + w <= n,
                j <= w,
                same == (forall|k: int| 0 <= k < j ==> s@[i + k] == word@[k]),
            decreases w - j,
        {
            if s[i + j] != word[j] {
                same = false;
            }
            j = j + 1;
        }
        if same {
            assert(s@.subrange(i as int, i + w) =~= word@);
            return true;
        }
        assert(s@.subrange(i as int, i + w) != word@) by {
            let k = choose|k: int| 0 <= k < w && s@[i + k] != word@[k];
            assert(s@.subrange(i as int, i + w)[k] != word@[k]);
        }
        i = i + 1;
    }
    false
}

pub open spec fn hint_of(lower: Seq<char>) -> Option<ThemePreference> {
    if contains(lower, seq!['d', 'a', 'r', 'k']) {
        Some(ThemePreference::Dark)
    } else if contains(lower, seq!['l', 'i', 'g', 'h', 't']) {
        Some(ThemePreference::Light)
    } else {
        None
    }
}

/// The appearance a lower-cased theme name suggests: dark if it mentions
/// "dark", else light if it mentions "light".
pub fn classify_lowered_hint(lower: &str) -> (r: Option<ThemePreference>)
    ensures
        r == hint_of(lower@),
{
    let cs = chars_of(lower);
    let dark = vec!['d', 'a', 'r', 'k'];
    let light = vec!['l', 'i', 'g', 'h', 't'];
    assert(dark@ =~= seq!['d', 'a', 'r', 'k']);
    assert(light@ =~= seq!['l', 'i', 'g', 'h', 't']);
    if contains_word(&cs, &dark) {
        Some(ThemePreference::Dark)
    } else if contains_word(&cs, &light) {
        Some(ThemePreference::Light)
    } else {
        None
    }
}

/// The appearance a theme name suggests, ignoring case.
pub fn classify_theme_hint(value: String) -> (r: Option<ThemePreference>)
    ensures
        r == hint_of(lower_of(value@)),
{
    let lower = lowercase(value.as_str());
    classify_lowered_hint(lower.as_str())
}

/// The appearance suggested by `GTK_THEME` if it is set, else by
/// `XCURSOR_THEME`.
pub fn guess_theme_from_env(env: &Environment) -> (r: Option<ThemePreference>)
    ensures
        r == match env.var_spec(seq!['G', 'T', 'K', '_', 'T', 'H', 'E', 'M', 'E']) {
            Some(t) => hint_of(lower_of(t)),
            None => match env.var_spec(
                seq!['X', 'C', 'U', 'R', 'S', 'O', 'R', '_', 'T', 'H', 'E', 'M', 'E'],
            ) {
                Some(t) => hint_of(lower_of(t)),
                None => None,
            },
        },
{
    let gtk = string_from(&['G', 'T', 'K', '_', 'T', 'H', 'E', 'M', 'E']);
    if let Some(theme) = env.var(&gtk) {
        return classify_theme_hint(theme);
    }
    let cursor = string_from(&['X', 'C', 'U', 'R', 'S', 'O', 'R', '_', 'T', 'H', 'E', 'M', 'E']);
    if let Some(theme) = env.var(&cursor) {
        return classify_theme_hint(theme);
    }
    None
}

} // verus!
