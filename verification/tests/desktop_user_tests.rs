use ktouchbar::desktop_user::{UserAnswer, UserQuery, UserSearch, UserStep};

fn s(x: &str) -> String {
    x.to_string()
}

#[test]
fn sudo_user_wins() {
    let mut search = UserSearch::new();
    assert_eq!(search.step(UserAnswer::SudoUser(Some(s("alice")))), UserStep::Found(s("alice")));
    assert_eq!(search.step(UserAnswer::SudoUser(Some(s("bob")))), UserStep::NotFound);
}

#[test]
fn first_graphical_seat0_session_of_a_user() {
    let mut search = UserSearch::new();
    assert_eq!(search.step(UserAnswer::SudoUser(None)), UserStep::Ask(UserQuery::ListSessions));
    let listing = "  1 1000 root  seat0 tty1\n  2 1001 bob seat1 tty2\n  3 1002 carol seat0 tty3\n  4 1003 dave seat0 tty4\n";
    assert_eq!(search.step(UserAnswer::Sessions(Some(s(listing)))), UserStep::Ask(UserQuery::SessionType(s("3"))));
    assert_eq!(
        search.step(UserAnswer::SessionType(Some(s("Type=tty\n")))),
        UserStep::Ask(UserQuery::SessionType(s("4")))
    );
    assert_eq!(search.step(UserAnswer::SessionType(Some(s("Type=wayland\n")))), UserStep::Found(s("dave")));
}

#[test]
fn wayland_socket_owner_when_no_session_fits() {
    let mut search = UserSearch::new();
    search.step(UserAnswer::SudoUser(None));
    assert_eq!(search.step(UserAnswer::Sessions(None)), UserStep::Ask(UserQuery::RuntimeDirs));
    let dirs = vec![s("0"), s("lock"), s("1000"), s("65534"), s("1001")];
    assert_eq!(
        search.step(UserAnswer::RuntimeDirs(Some(dirs))),
        UserStep::Ask(UserQuery::WaylandSocket(s("1000")))
    );
    assert_eq!(search.step(UserAnswer::WaylandSocket(false)), UserStep::Ask(UserQuery::WaylandSocket(s("1001"))));
    assert_eq!(search.step(UserAnswer::WaylandSocket(true)), UserStep::Ask(UserQuery::Passwd(s("1001"))));
    assert_eq!(
        search.step(UserAnswer::Passwd(Some(s("erin:x:1001:1001::/home/erin:/bin/bash\n")))),
        UserStep::Found(s("erin"))
    );
}

#[test]
fn nobody_found_and_mismatched_answers_repeat_the_question() {
    let mut search = UserSearch::new();
    assert_eq!(search.step(UserAnswer::WaylandSocket(true)), UserStep::Ask(UserQuery::SudoUser));
    search.step(UserAnswer::SudoUser(None));
    search.step(UserAnswer::Sessions(Some(s(""))));
    assert_eq!(search.step(UserAnswer::RuntimeDirs(None)), UserStep::NotFound);
}
