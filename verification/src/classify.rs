use vstd::prelude::*;

use crate::identity::AppIdentity;
use crate::identity::display_name;
use crate::identity::spec_display_name;
use crate::text::base_name;
use crate::text::base_start;
use crate::text::chars_eq_str;
use crate::text::contains_chars;
use crate::text::is_substring_of;
use crate::text::lower;
use crate::text::tail_from;
use crate::text::to_lower_chars;

verus! {

/// The ordered table of application-bundle path fragments. A command string
/// that contains one of these fragments (after ASCII case folding) is
/// classified by the first row that matches: helper and shim processes often
/// keep only the bundle path of their host, not a recognizable base name, so
/// these rows take priority over the base-name table.
pub open spec fn bundle_table() -> Seq<(Seq<char>, AppIdentity)> {
    seq![
        ("zed.app"@, AppIdentity::Zed),
        ("visual studio code.app"@, AppIdentity::VsCode),
        ("code.app"@, AppIdentity::VsCode),
        ("cursor.app"@, AppIdentity::Cursor),
        ("windsurf.app"@, AppIdentity::Windsurf),
        ("iterm.app"@, AppIdentity::ITerm),
        ("iterm2.app"@, AppIdentity::ITerm),
        ("terminal.app"@, AppIdentity::Terminal),
        ("alacritty.app"@, AppIdentity::Alacritty),
        ("kitty.app"@, AppIdentity::Kitty),
        ("warp.app"@, AppIdentity::Warp),
        ("hyper.app"@, AppIdentity::Hyper),
        ("sublime text.app"@, AppIdentity::SublimeText),
    ]
}

/// The table of known executable base names, consulted only when no bundle
/// fragment matches. The final path segment of the folded command string must
/// equal a row's name exactly. Several Electron helper names alias to the
/// same editor identity; that imprecision is accepted.
pub open spec fn base_table() -> Seq<(Seq<char>, AppIdentity)> {
    seq![
        ("terminal"@, AppIdentity::Terminal),
        ("iterm2"@, AppIdentity::ITerm),
        ("iterm"@, AppIdentity::ITerm),
        ("alacritty"@, AppIdentity::Alacritty),
        ("kitty"@, AppIdentity::Kitty),
        ("warp"@, AppIdentity::Warp),
        ("hyper"@, AppIdentity::Hyper),
        ("zed"@, AppIdentity::Zed),
        ("zed-editor"@, AppIdentity::Zed),
        ("code"@, AppIdentity::VsCode),
        ("code helper"@, AppIdentity::VsCode),
        ("electron"@, AppIdentity::VsCode),
        ("cursor"@, AppIdentity::Cursor),
        ("windsurf"@, AppIdentity::Windsurf),
        ("sublime_text"@, AppIdentity::SublimeText),
        ("subl"@, AppIdentity::SublimeText),
        ("atom"@, AppIdentity::Atom),
    ]
}

/// First bundle-table row at or after `i` whose fragment occurs in `low`.
pub open spec fn scan_bundles(low: Seq<char>, i: int) -> Option<AppIdentity>
    decreases bundle_table().len() - i,
{
    if i >= bundle_table().len() {
        None
    } else if is_substring_of(bundle_table()[i].0, low) {
        Some(bundle_table()[i].1)
    } else {
        scan_bundles(low, i + 1)
    }
}

/// First base-table row at or after `i` whose name equals `base`.
pub open spec fn scan_bases(base: Seq<char>, i: int) -> Option<AppIdentity>
    decreases base_table().len() - i,
{
    if i >= base_table().len() {
        None
    } else if base == base_table()[i].0 {
        Some(base_table()[i].1)
    } else {
        scan_bases(base, i + 1)
    }
}

/// What the classifier returns for a raw command string: the first matching
/// bundle fragment's identity, else the identity of the base name equal to
/// the command's final path segment, else nothing. Matching is insensitive
/// to ASCII case throughout.
pub open spec fn classify_spec(command: Seq<char>) -> Option<AppIdentity> {
    let low = lower(command);
    match scan_bundles(low, 0) {
        Some(id) => Some(id),
        None => scan_bases(base_name(low), 0),
    }
}

proof fn lemma_scan_bundles_hit(low: Seq<char>, i: int, k: int)
    requires
        0 <= i <= k < bundle_table().len(),
        is_substring_of(bundle_table()[k].0, low),
        forall|j: int| i <= j < k ==> !is_substring_of(bundle_table()[j].0, low),
    ensures
        scan_bundles(low, i) == Some(bundle_table()[k].1),
    decreases k - i,
{
    if i < k {
        lemma_scan_bundles_hit(low, i + 1, k);
    }
}

proof fn lemma_scan_bundles_miss(low: Seq<char>, i: int)
    requires
        0 <= i,
        forall|j: int| i <= j < bundle_table().len() ==> !is_substring_of(
            bundle_table()[j].0,
            low,
        ),
    ensures
        scan_bundles(low, i) is None,
    decreases bundle_table().len() - i,
{
    if i < bundle_table().len() {
        lemma_scan_bundles_miss(low, i + 1);
    }
}

proof fn lemma_scan_bases_hit(base: Seq<char>, i: int, k: int)
    requires
        0 <= i <= k < base_table().len(),
        base == base_table()[k].0,
        forall|j: int| i <= j < k ==> base != base_table()[j].0,
    ensures
        scan_bases(base, i) == Some(base_table()[k].1),
    decreases k - i,
{
    if i < k {
        lemma_scan_bases_hit(base, i + 1, k);
    }
}

proof fn lemma_scan_bases_miss(base: Seq<char>, i: int)
    requires
        0 <= i,
        forall|j: int| i <= j < base_table().len() ==> base != base_table()[j].0,
    ensures
        scan_bases(base, i) is None,
    decreases base_table().len() - i,
{
    if i < base_table().len() {
        lemma_scan_bases_miss(base, i + 1);
    }
}

fn bundle_lookup(low: &Vec<char>) -> (r: Option<AppIdentity>)
    ensures
        r == scan_bundles(low@, 0),
{
    if contains_chars(low, "zed.app") {
        proof {
            lemma_scan_bundles_hit(low@, 0, 0);
        }
        return Some(AppIdentity::Zed);
    }
    if contains_chars(low, "visual studio code.app") {
        proof {
            lemma_scan_bundles_hit(low@, 0, 1);
        }
        return Some(AppIdentity::VsCode);
    }
    if contains_chars(low, "code.app") {
        proof {
            lemma_scan_bundles_hit(low@, 0, 2);
        }
        return Some(AppIdentity::VsCode);
    }
    if contains_chars(low, "cursor.app") {
        proof {
            lemma_scan_bundles_hit(low@, 0, 3);
        }
        return Some(AppIdentity::Cursor);
    }
    if contains_chars(low, "windsurf.app") {
        proof {
            lemma_scan_bundles_hit(low@, 0, 4);
        }
        return Some(AppIdentity::Windsurf);
    }
    if contains_chars(low, "iterm.app") {
        proof {
            lemma_scan_bundles_hit(low@, 0, 5);
        }
        return Some(AppIdentity::ITerm);
    }
    if contains_chars(low, "iterm2.app") {
        proof {
            lemma_scan_bundles_hit(low@, 0, 6);
        }
        return Some(AppIdentity::ITerm);
    }
    if contains_chars(low, "terminal.app") {
        proof {
            lemma_scan_bundles_hit(low@, 0, 7);
        }
        return Some(AppIdentity::Terminal);
    }
    if contains_chars(low, "alacritty.app") {
        proof {
            lemma_scan_bundles_hit(low@, 0, 8);
        }
        return Some(AppIdentity::Alacritty);
    }
    if contains_chars(low, "kitty.app") {
        proof {
            lemma_scan_bundles_hit(low@, 0, 9);
        }
        return Some(AppIdentity::Kitty);
    }
    if contains_chars(low, "warp.app") {
        proof {
            lemma_scan_bundles_hit(low@, 0, 10);
        }
        return Some(AppIdentity::Warp);
    }
    if contains_chars(low, "hyper.app") {
        proof {
            lemma_scan_bundles_hit(low@, 0, 11);
        }
        return Some(AppIdentity::Hyper);
    }
    if contains_chars(low, "sublime text.app") {
        proof {
            lemma_scan_bundles_hit(low@, 0, 12);
        }
        return Some(AppIdentity::SublimeText);
    }
    proof {
        lemma_scan_bundles_miss(low@, 0);
    }
    None
}

fn base_lookup(base: &Vec<char>) -> (r: Option<AppIdentity>)
    ensures
        r == scan_bases(base@, 0),
{
    if chars_eq_str(base, "terminal") {
        proof {
            lemma_scan_bases_hit(base@, 0, 0);
        }
        return Some(AppIdentity::Terminal);
    }
    if chars_eq_str(base, "iterm2") {
        proof {
            lemma_scan_bases_hit(base@, 0, 1);
        }
        return Some(AppIdentity::ITerm);
    }
    if chars_eq_str(base, "iterm") {
        proof {
            lemma_scan_bases_hit(base@, 0, 2);
        }
        return Some(AppIdentity::ITerm);
    }
    if chars_eq_str(base, "alacritty") {
        proof {
            lemma_scan_bases_hit(base@, 0, 3);
        }
        return Some(AppIdentity::Alacritty);
    }
    if chars_eq_str(base, "kitty") {
        proof {
            lemma_scan_bases_hit(base@, 0, 4);
        }
        return Some(AppIdentity::Kitty);
    }
    if chars_eq_str(base, "warp") {
        proof {
            lemma_scan_bases_hit(base@, 0, 5);
        }
        return Some(AppIdentity::Warp);
    }
    if chars_eq_str(base, "hyper") {
        proof {
            lemma_scan_bases_hit(base@, 0, 6);
        }
        return Some(AppIdentity::Hyper);
    }
    if chars_eq_str(base, "zed") {
        proof {
            lemma_scan_bases_hit(base@, 0, 7);
        }
        return Some(AppIdentity::Zed);
    }
    if chars_eq_str(base, "zed-editor") {
        proof {
            lemma_scan_bases_hit(base@, 0, 8);
        }
        return Some(AppIdentity::Zed);
    }
    if chars_eq_str(base, "code") {
        proof {
            lemma_scan_bases_hit(base@, 0, 9);
        }
        return Some(AppIdentity::VsCode);
    }
    if chars_eq_str(base, "code helper") {
        proof {
            lemma_scan_bases_hit(base@, 0, 10);
        }
        return Some(AppIdentity::VsCode);
    }
    if chars_eq_str(base, "electron") {
        proof {
            lemma_scan_bases_hit(base@, 0, 11);
        }
        return Some(AppIdentity::VsCode);
    }
    if chars_eq_str(base, "cursor") {
        proof {
            lemma_scan_bases_hit(base@, 0, 12);
        }
        return Some(AppIdentity::Cursor);
    }
    if chars_eq_str(base, "windsurf") {
        proof {
            lemma_scan_bases_hit(base@, 0, 13);
        }
        return Some(AppIdentity::Windsurf);
    }
    if chars_eq_str(base, "sublime_text") {
        proof {
            lemma_scan_bases_hit(base@, 0, 14);
        }
        return Some(AppIdentity::SublimeText);
    }
    if chars_eq_str(base, "subl") {
        proof {
            lemma_scan_bases_hit(base@, 0, 15);
        }
        return Some(AppIdentity::SublimeText);
    }
    if chars_eq_str(base, "atom") {
        proof {
            lemma_scan_bases_hit(base@, 0, 16);
        }
        return Some(AppIdentity::Atom);
    }
    proof {
        lemma_scan_bases_miss(base@, 0);
    }
    None
}

/// Case folding preserves containment: a string that occurs inside another,
/// in whatever mixture of ASCII case, occurs in folded form inside the
/// folded whole.
pub proof fn lemma_substring_folds(m: Seq<char>, s: Seq<char>)
    requires
        is_substring_of(m, s),
    ensures
        is_substring_of(lower(m), lower(s)),
{
    let i = choose|i: int|
        0 <= i && i + m.len() <= s.len() && #[trigger] s.subrange(i, i + m.len()) == m;
    assert(lower(s).subrange(i, i + lower(m).len() as int) =~= lower(m)) by {
        assert forall|k: int| 0 <= k < m.len() implies lower(s).subrange(
            i,
            i + lower(m).len() as int,
        )[k] == lower(m)[k] by {
            assert(s.subrange(i, i + m.len() as int)[k] == s[i + k]);
        }
    }
    assert(0 <= i && i + lower(m).len() <= lower(s).len() && lower(s).subrange(
        i,
        i + lower(m).len() as int,
    ) == lower(m));
}

/// Bundle-path fragments dominate the classification: a command string that
/// contains the `k`th fragment of the bundle table after ASCII case folding
/// — whatever surrounds the fragment — and contains no fragment of an
/// earlier row, is classified as that row's identity.
pub proof fn lemma_bundle_fragment_classifies(command: Seq<char>, k: int)
    requires
        0 <= k < bundle_table().len(),
        is_substring_of(bundle_table()[k].0, lower(command)),
        forall|j: int| 0 <= j < k ==> !is_substring_of(bundle_table()[j].0, lower(command)),
    ensures
        classify_spec(command) == Some(bundle_table()[k].1),
{
    lemma_scan_bundles_hit(lower(command), 0, k);
}

#[verifier::rlimit(100)]
proof fn lemma_base_table_distinct()
    ensures
        forall|i: int, j: int|
            0 <= i < j < base_table().len() ==> base_table()[i].0 != base_table()[j].0,
{
    reveal_strlit("terminal");
    reveal_strlit("iterm2");
    reveal_strlit("iterm");
    reveal_strlit("alacritty");
    reveal_strlit("kitty");
    reveal_strlit("warp");
    reveal_strlit("hyper");
    reveal_strlit("zed");
    reveal_strlit("zed-editor");
    reveal_strlit("code");
    reveal_strlit("code helper");
    reveal_strlit("electron");
    reveal_strlit("cursor");
    reveal_strlit("windsurf");
    reveal_strlit("sublime_text");
    reveal_strlit("subl");
    reveal_strlit("atom");
    assert forall|i: int, j: int|
        0 <= i < j < base_table().len() implies base_table()[i].0 != base_table()[j].0 by {
        let a = base_table()[i].0;
        let b = base_table()[j].0;
        assert(a.len() != b.len() || a[0] != b[0]);
    }
}

/// A command string in which no bundle fragment occurs, and whose final path
/// segment equals (after ASCII case folding) the `k`th known base name, is
/// classified as that row's identity.
pub proof fn lemma_base_name_classifies(command: Seq<char>, k: int)
    requires
        forall|j: int|
            0 <= j < bundle_table().len() ==> !is_substring_of(
                bundle_table()[j].0,
                lower(command),
            ),
        0 <= k < base_table().len(),
        base_name(lower(command)) == base_table()[k].0,
    ensures
        classify_spec(command) == Some(base_table()[k].1),
{
    lemma_scan_bundles_miss(lower(command), 0);
    lemma_base_table_distinct();
    lemma_scan_bases_hit(base_name(lower(command)), 0, k);
}

/// A command string in which no bundle fragment occurs and whose final path
/// segment equals no known base name is not classified at all.
pub proof fn lemma_unrecognized_command(command: Seq<char>)
    requires
        forall|j: int|
            0 <= j < bundle_table().len() ==> !is_substring_of(
                bundle_table()[j].0,
                lower(command),
            ),
        forall|j: int| 0 <= j < base_table().len() ==> base_name(lower(command)) != base_table()[j].0,
    ensures
        classify_spec(command) is None,
{
    lemma_scan_bundles_miss(lower(command), 0);
    lemma_scan_bases_miss(base_name(lower(command)), 0);
}

/// Maps a raw process command string to the identity of the application it
/// belongs to, or `None` for a command the tables do not recognize.
pub fn classify(command: &str) -> (r: Option<AppIdentity>)
    ensures
        r == classify_spec(command@),
{
    let low = to_lower_chars(command);
    let by_bundle = bundle_lookup(&low);
    if let Some(id) = by_bundle {
        return Some(id);
    }
    let start = base_start(&low);
    let base = tail_from(&low, start);
    base_lookup(&base)
}

/// Maps a raw process command string to the display name of the application
/// it belongs to. The name is exactly the display name of the identity that
/// `classify` resolves, and is absent exactly when `classify` finds none.
pub fn get_app_name(command: &str) -> (r: Option<&'static str>)
    ensures
        match (r, classify_spec(command@)) {
            (Some(name), Some(id)) => name@ == spec_display_name(id),
            (None, None) => true,
            _ => false,
        },
{
    match classify(command) {
        Some(id) => Some(display_name(id)),
        None => None,
    }
}

} // verus!
