use session_actions::AppIdentity;
use session_actions::classify;
use session_actions::get_app_name;

#[test]
fn bundle_fragments_resolve_each_identity() {
    assert_eq!(
        classify("/Applications/Zed.app/Contents/MacOS/zed"),
        Some(AppIdentity::Zed)
    );
    assert_eq!(
        classify("/Applications/Visual Studio Code.app/Contents/MacOS/Electron"),
        Some(AppIdentity::VsCode)
    );
    assert_eq!(
        classify("/Applications/Cursor.app/Contents/MacOS/Cursor"),
        Some(AppIdentity::Cursor)
    );
    assert_eq!(
        classify("/Applications/Windsurf.app/Contents/MacOS/Electron"),
        Some(AppIdentity::Windsurf)
    );
    assert_eq!(
        classify("/Applications/iTerm.app/Contents/MacOS/iTerm2"),
        Some(AppIdentity::ITerm)
    );
    assert_eq!(
        classify("/System/Applications/Utilities/Terminal.app/Contents/MacOS/Terminal"),
        Some(AppIdentity::Terminal)
    );
    assert_eq!(
        classify("/Applications/Alacritty.app/Contents/MacOS/alacritty"),
        Some(AppIdentity::Alacritty)
    );
    assert_eq!(
        classify("/Applications/kitty.app/Contents/MacOS/kitty"),
        Some(AppIdentity::Kitty)
    );
    assert_eq!(
        classify("/Applications/Warp.app/Contents/MacOS/stable"),
        Some(AppIdentity::Warp)
    );
    assert_eq!(
        classify("/Applications/Hyper.app/Contents/MacOS/Hyper"),
        Some(AppIdentity::Hyper)
    );
    assert_eq!(
        classify("/Applications/Sublime Text.app/Contents/MacOS/sublime_text"),
        Some(AppIdentity::SublimeText)
    );
}

#[test]
fn bundle_fragment_matches_in_any_case_mixture() {
    assert_eq!(classify("/APPLICATIONS/KITTY.APP/X"), Some(AppIdentity::Kitty));
    assert_eq!(classify("/applications/zed.APP/contents/macos/cli"), Some(AppIdentity::Zed));
    assert_eq!(classify("a-prefix ItErM2.aPp a-suffix"), Some(AppIdentity::ITerm));
}

#[test]
fn bundle_fragment_match_needs_no_surrounding_path() {
    assert_eq!(classify("code.app"), Some(AppIdentity::VsCode));
    assert_eq!(classify("/Applications/iTerm.app"), Some(AppIdentity::ITerm));
}

#[test]
fn bundle_fragment_takes_priority_over_base_name() {
    // The base name alone would say Zed; the bundle path says Warp.
    assert_eq!(
        classify("/Applications/Warp.app/bin/zed"),
        Some(AppIdentity::Warp)
    );
}

#[test]
fn base_names_resolve_each_identity() {
    assert_eq!(classify("Terminal"), Some(AppIdentity::Terminal));
    assert_eq!(classify("iTerm2"), Some(AppIdentity::ITerm));
    assert_eq!(classify("iterm"), Some(AppIdentity::ITerm));
    assert_eq!(classify("alacritty"), Some(AppIdentity::Alacritty));
    assert_eq!(classify("kitty"), Some(AppIdentity::Kitty));
    assert_eq!(classify("warp"), Some(AppIdentity::Warp));
    assert_eq!(classify("hyper"), Some(AppIdentity::Hyper));
    assert_eq!(classify("zed"), Some(AppIdentity::Zed));
    assert_eq!(classify("zed-editor"), Some(AppIdentity::Zed));
    assert_eq!(classify("code"), Some(AppIdentity::VsCode));
    assert_eq!(classify("code helper"), Some(AppIdentity::VsCode));
    assert_eq!(classify("Electron"), Some(AppIdentity::VsCode));
    assert_eq!(classify("cursor"), Some(AppIdentity::Cursor));
    assert_eq!(classify("windsurf"), Some(AppIdentity::Windsurf));
    assert_eq!(classify("sublime_text"), Some(AppIdentity::SublimeText));
    assert_eq!(classify("subl"), Some(AppIdentity::SublimeText));
    assert_eq!(classify("atom"), Some(AppIdentity::Atom));
}

#[test]
fn base_name_is_the_final_path_segment() {
    assert_eq!(classify("/usr/local/bin/subl"), Some(AppIdentity::SublimeText));
    assert_eq!(classify("/opt/homebrew/bin/ZED"), Some(AppIdentity::Zed));
}

#[test]
fn base_name_must_match_exactly() {
    // A known name as a proper prefix or substring of the segment is no match.
    assert_eq!(classify("/usr/bin/code2"), None);
    assert_eq!(classify("zedx"), None);
    assert_eq!(classify("my-atom"), None);
}

#[test]
fn unrecognized_commands_yield_none() {
    assert_eq!(classify(""), None);
    assert_eq!(classify("bash"), None);
    assert_eq!(classify("/bin/zsh"), None);
    assert_eq!(classify("node"), None);
    assert_eq!(classify("/usr/sbin/sshd"), None);
    assert_eq!(classify("trailing-slash-leaves-empty-segment/"), None);
}

#[test]
fn get_app_name_reports_display_names() {
    assert_eq!(
        get_app_name("/Applications/Visual Studio Code.app/Contents/MacOS/Electron"),
        Some("Visual Studio Code")
    );
    assert_eq!(get_app_name("/Applications/kitty.app/Contents/MacOS/kitty"), Some("kitty"));
    assert_eq!(get_app_name("subl"), Some("Sublime Text"));
    assert_eq!(get_app_name("Terminal"), Some("Terminal"));
    assert_eq!(get_app_name("bash"), None);
}
