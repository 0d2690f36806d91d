use session_actions::AppIdentity;
use session_actions::MAX_HOPS;
use session_actions::WalkState;

#[test]
fn start_queries_the_given_pid() {
    let st = WalkState::start(500);
    assert_eq!(st.query_target(), Some(500));
    assert_eq!(st.resolved(), None);
}

#[test]
fn zed_chain_resolves_in_two_hops() {
    // Chain 500 -> 400 -> 300 -> 1, where 400's command is Zed's bundled
    // cli. The walk resolves after inspecting 500 and 400 and never asks
    // about 300 or 1.
    let st = WalkState::start(500);
    let st = st.step("node", 400);
    assert_eq!(st.query_target(), Some(400));
    let st = st.step("/Applications/Zed.app/Contents/MacOS/cli", 300);
    assert_eq!(st.query_target(), None);
    assert_eq!(st.resolved(), Some(AppIdentity::Zed));
}

#[test]
fn unclassifiable_chain_to_root_defaults_to_terminal() {
    let st = WalkState::start(7);
    let st = st.step("bash", 42);
    assert_eq!(st.query_target(), Some(42));
    let st = st.step("login", 1);
    assert_eq!(st.resolved(), Some(AppIdentity::Terminal));
}

#[test]
fn root_parent_of_zero_also_ends_the_walk() {
    let st = WalkState::start(9);
    let st = st.step("some-daemon", 0);
    assert_eq!(st.resolved(), Some(AppIdentity::Terminal));
}

#[test]
fn walk_is_bounded_and_defaults_to_terminal() {
    // An endless chain of unclassifiable processes: the walk performs at
    // most MAX_HOPS queries and then falls back to Terminal.
    let mut st = WalkState::start(100_000);
    let mut queries: u32 = 0;
    while let Some(pid) = st.query_target() {
        queries += 1;
        assert!(queries <= MAX_HOPS);
        st = st.step("worker", pid + 1);
    }
    assert_eq!(queries, MAX_HOPS);
    assert_eq!(st.resolved(), Some(AppIdentity::Terminal));
}

#[test]
fn classifiable_command_resolves_at_once() {
    let st = WalkState::start(77);
    let st = st.step("iTerm2", 5);
    assert_eq!(st.resolved(), Some(AppIdentity::ITerm));
}

#[test]
fn failed_query_falls_back_to_terminal() {
    let st = WalkState::start(123);
    let st = st.query_failed();
    assert_eq!(st.query_target(), None);
    assert_eq!(st.resolved(), Some(AppIdentity::Terminal));
}

#[test]
fn finished_walk_ignores_further_steps() {
    let st = WalkState::start(1);
    let st = st.step("kitty", 99);
    assert_eq!(st.resolved(), Some(AppIdentity::Kitty));
    let st = st.step("zed", 98);
    assert_eq!(st.resolved(), Some(AppIdentity::Kitty));
}
