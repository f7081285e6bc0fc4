use remote_input::message::{Command, ControlMessage};
use remote_input::session::{authenticate, DecodeError, Session, SessionError};

const SECRET: &str = "TEST123";

fn message(control_type: &str, password: &str, movex: i32, movey: i32, key: &str) -> ControlMessage {
    ControlMessage {
        control_type: control_type.to_string(),
        password: password.to_string(),
        movex,
        movey,
        key: key.to_string(),
    }
}

#[test]
fn authenticate_compares_exactly() {
    assert!(authenticate("TEST123", SECRET));
    assert!(authenticate("", ""));
    assert!(!authenticate("test123", SECRET));
    assert!(!authenticate("TEST123 ", SECRET));
    assert!(!authenticate("TEST12", SECRET));
    assert!(!authenticate("", SECRET));
    assert!(!authenticate("TEST124", SECRET));
    assert!(authenticate("p\u{e4}ss\u{1f600}", "p\u{e4}ss\u{1f600}"));
    assert!(!authenticate("p\u{e4}ss", "pass"));
}

#[test]
fn control_types_become_commands() {
    assert_eq!(message("move", SECRET, 10, -4, "").command(), Command::Move { dx: 10, dy: -4 });
    assert_eq!(message("click", SECRET, 1, 2, "x").command(), Command::Click);
    assert_eq!(message("fullscreen", SECRET, 0, 0, "").command(), Command::Fullscreen);
    assert_eq!(
        message("keyboard", SECRET, 0, 0, "Enter").command(),
        Command::KeyPress { label: "Enter".to_string() }
    );
}

#[test]
fn other_control_types_are_unknown() {
    for kind in ["", "Move", "MOVE", "move ", "scroll", "keyboard2", "clic"] {
        assert_eq!(message(kind, SECRET, 3, 4, "a").command(), Command::Unknown, "{kind:?}");
    }
}

#[test]
fn authentic_frames_are_handed_on_in_order() {
    let mut session = Session::new(SECRET.to_string());
    assert!(session.is_open());
    assert_eq!(
        session.accept(Ok(message("move", SECRET, 10, 0, ""))),
        Ok(Command::Move { dx: 10, dy: 0 })
    );
    assert_eq!(session.accept(Ok(message("click", SECRET, 0, 0, ""))), Ok(Command::Click));
    assert_eq!(session.accept(Ok(message("nonsense", SECRET, 0, 0, ""))), Ok(Command::Unknown));
    assert!(session.is_open());
}

#[test]
fn wrong_password_ends_the_session_and_is_never_handed_on() {
    let mut session = Session::new(SECRET.to_string());
    assert_eq!(session.accept(Ok(message("click", SECRET, 0, 0, ""))), Ok(Command::Click));
    assert_eq!(
        session.accept(Ok(message("click", "guess", 0, 0, ""))),
        Err(SessionError::WrongPassword)
    );
    assert!(!session.is_open());
    assert_eq!(
        session.accept(Ok(message("click", SECRET, 0, 0, ""))),
        Err(SessionError::Closed)
    );
    assert!(!session.is_open());
}

#[test]
fn undecodable_frame_ends_the_session() {
    let mut session = Session::new(SECRET.to_string());
    assert_eq!(
        session.accept(Err(DecodeError::Syntax)),
        Err(SessionError::Decode(DecodeError::Syntax))
    );
    assert!(!session.is_open());

    let mut session = Session::new(SECRET.to_string());
    assert_eq!(
        session.accept(Err(DecodeError::Fields)),
        Err(SessionError::Decode(DecodeError::Fields))
    );
    assert!(!session.is_open());
    assert_eq!(session.accept(Err(DecodeError::Fields)), Err(SessionError::Closed));
}

#[test]
fn forwarded_commands_are_those_before_the_first_failure() {
    let frames = vec![
        Ok(message("move", SECRET, 1, 1, "")),
        Ok(message("keyboard", SECRET, 0, 0, "a")),
        Ok(message("click", "wrong", 0, 0, "")),
        Ok(message("fullscreen", SECRET, 0, 0, "")),
        Err(DecodeError::Syntax),
        Ok(message("click", SECRET, 0, 0, "")),
    ];
    let mut session = Session::new(SECRET.to_string());
    let mut forwarded = Vec::new();
    for frame in frames {
        if let Ok(command) = session.accept(frame) {
            forwarded.push(command);
        }
    }
    assert_eq!(
        forwarded,
        vec![Command::Move { dx: 1, dy: 1 }, Command::KeyPress { label: "a".to_string() }]
    );
}
