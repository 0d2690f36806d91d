use vstd::prelude::*;

verus! {

/// The closed set of GUI applications the classifier can recognize as the
/// host of a supervised process. Every consumer of a classification result
/// works from this enumeration, never from raw strings.
#[derive(Clone, Copy, Debug, PartialEq, Eq, Structural)]
pub enum AppIdentity {
    Terminal,
    ITerm,
    Alacritty,
    Kitty,
    Warp,
    Hyper,
    Zed,
    VsCode,
    Cursor,
    Windsurf,
    SublimeText,
    Atom,
}

/// The display name the operating system's automation facility knows the
/// application under; activation commands are addressed to this name.
pub open spec fn spec_display_name(app: AppIdentity) -> Seq<char> {
    match app {
        AppIdentity::Terminal => "Terminal"@,
        AppIdentity::ITerm => "iTerm"@,
        AppIdentity::Alacritty => "Alacritty"@,
        AppIdentity::Kitty => "kitty"@,
        AppIdentity::Warp => "Warp"@,
        AppIdentity::Hyper => "Hyper"@,
        AppIdentity::Zed => "Zed"@,
        AppIdentity::VsCode => "Visual Studio Code"@,
        AppIdentity::Cursor => "Cursor"@,
        AppIdentity::Windsurf => "Windsurf"@,
        AppIdentity::SublimeText => "Sublime Text"@,
        AppIdentity::Atom => "Atom"@,
    }
}

/// Returns the display name of `app`.
pub fn display_name(app: AppIdentity) -> (r: &'static str)
    ensures
        r@ == spec_display_name(app),
{
    match app {
        AppIdentity::Terminal => "Terminal",
        AppIdentity::ITerm => "iTerm",
        AppIdentity::Alacritty => "Alacritty",
        AppIdentity::Kitty => "kitty",
        AppIdentity::Warp => "Warp",
        AppIdentity::Hyper => "Hyper",
        AppIdentity::Zed => "Zed",
        AppIdentity::VsCode => "Visual Studio Code",
        AppIdentity::Cursor => "Cursor",
        AppIdentity::Windsurf => "Windsurf",
        AppIdentity::SublimeText => "Sublime Text",
        AppIdentity::Atom => "Atom",
    }
}

} // verus!
