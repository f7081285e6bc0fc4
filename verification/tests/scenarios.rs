use remote_input::actuator::{Actuator, Directive, Event, Phase};
use remote_input::device::DeviceAction;
use remote_input::keys::{map_key, KeyStroke};
use remote_input::message::{Command, ControlMessage};
use remote_input::motion::Velocity;
use remote_input::session::{DecodeError, Session, SessionError};
use serde_json::Value;

const SECRET: &str = "TEST123";
const SPEED: f32 = 10.0;

fn text_field(frame: &Value, name: &str) -> Result<String, DecodeError> {
    match frame.get(name).and_then(Value::as_str) {
        Some(text) => Ok(text.to_string()),
        None => Err(DecodeError::Fields),
    }
}

fn motion_field(frame: &Value, name: &str) -> Result<i32, DecodeError> {
    match frame.get(name).and_then(Value::as_f64) {
        Some(number) => Ok((number as f32 * SPEED) as i32),
        None => Err(DecodeError::Fields),
    }
}

/// Decodes one frame, with the motion scaled to device units.
fn decode(frame: &str) -> Result<ControlMessage, DecodeError> {
    let value: Value = match serde_json::from_str(frame) {
        Ok(value) => value,
        Err(_) => return Err(DecodeError::Syntax),
    };
    Ok(ControlMessage {
        control_type: text_field(&value, "control_type")?,
        password: text_field(&value, "password")?,
        movex: motion_field(&value, "movex")?,
        movey: motion_field(&value, "movey")?,
        key: text_field(&value, "key")?,
    })
}

/// A session and a loop joined by a queue, with a device that records what
/// it is asked to do and fails every action.
struct Rig {
    session: Session,
    queue: Vec<Command>,
    connected: bool,
    actuator: Actuator,
    device: Vec<DeviceAction>,
}

impl Rig {
    fn new() -> Rig {
        let mut actuator = Actuator::new();
        actuator.advance(Event::WarmupElapsed);
        Rig {
            session: Session::new(SECRET.to_string()),
            queue: Vec::new(),
            connected: true,
            actuator,
            device: Vec::new(),
        }
    }

    fn receive(&mut self, frame: &str) -> Result<(), SessionError> {
        match self.session.accept(decode(frame)) {
            Ok(command) => {
                self.queue.push(command);
                Ok(())
            }
            Err(error) => {
                self.connected = false;
                Err(error)
            }
        }
    }

    fn disconnect(&mut self) {
        self.connected = false;
    }

    /// Runs the loop for one poll and the actions that follow it.
    fn tick(&mut self) {
        let poll = if !self.queue.is_empty() {
            Event::Received(self.queue.remove(0))
        } else if self.connected {
            Event::TimedOut
        } else {
            Event::Disconnected
        };
        let mut directive = self.actuator.advance(poll);
        while let Directive::Issue(action) = directive {
            self.device.push(action);
            directive = self.actuator.advance(Event::Completed { succeeded: false });
        }
    }
}

#[test]
fn move_then_disconnect_ends_without_residual_motion() {
    let mut rig = Rig::new();
    let frame = r#"{"control_type":"move","password":"TEST123","movex":1.0,"movey":0.0,"key":""}"#;
    assert_eq!(rig.receive(frame), Ok(()));
    rig.tick();
    assert_eq!(rig.actuator.velocity(), Velocity { x: 10, y: 0 });
    assert_eq!(rig.device, vec![DeviceAction::MoveRelative { dx: 10, dy: 0 }]);

    rig.disconnect();
    rig.tick();
    assert_eq!(rig.actuator.phase(), Phase::Terminated);
    assert_eq!(rig.actuator.directive(), Directive::Exit);
    assert_eq!(rig.device, vec![DeviceAction::MoveRelative { dx: 10, dy: 0 }]);

    rig.tick();
    rig.tick();
    assert_eq!(rig.device.len(), 1);
}

#[test]
fn capital_a_is_typed_with_shift() {
    assert_eq!(map_key("A"), Some(KeyStroke { code: 30, shift: true }));

    let mut rig = Rig::new();
    let frame =
        r#"{"control_type":"keyboard","password":"TEST123","movex":0,"movey":0,"key":"A"}"#;
    assert_eq!(rig.receive(frame), Ok(()));
    rig.tick();
    assert_eq!(
        rig.device,
        vec![
            DeviceAction::Press(42),
            DeviceAction::Click(30),
            DeviceAction::Release(42),
            DeviceAction::MoveRelative { dx: 0, dy: 0 },
        ]
    );
}

#[test]
fn a_frame_without_motion_fields_is_not_decoded() {
    let mut rig = Rig::new();
    let frame = r#"{"control_type":"keyboard","password":"TEST123","key":"A"}"#;
    assert_eq!(rig.receive(frame), Err(SessionError::Decode(DecodeError::Fields)));
    assert!(!rig.session.is_open());
    rig.tick();
    assert_eq!(rig.actuator.phase(), Phase::Terminated);
    assert!(rig.device.is_empty());
}

#[test]
fn a_frame_with_a_wrong_password_never_reaches_the_loop() {
    let mut rig = Rig::new();
    let good = r#"{"control_type":"click","password":"TEST123","movex":0,"movey":0,"key":""}"#;
    let bad = r#"{"control_type":"click","password":"test123","movex":0,"movey":0,"key":""}"#;
    assert_eq!(rig.receive(good), Ok(()));
    assert_eq!(rig.receive(bad), Err(SessionError::WrongPassword));
    assert_eq!(rig.receive(good), Err(SessionError::Closed));
    assert_eq!(rig.queue, vec![Command::Click]);
    rig.tick();
    rig.tick();
    assert_eq!(
        rig.device,
        vec![DeviceAction::Click(0x110), DeviceAction::MoveRelative { dx: 0, dy: 0 }]
    );
    assert_eq!(rig.actuator.phase(), Phase::Terminated);
}

#[test]
fn a_malformed_frame_ends_the_session() {
    let mut rig = Rig::new();
    assert_eq!(rig.receive("{not json"), Err(SessionError::Decode(DecodeError::Syntax)));
    assert!(!rig.session.is_open());
}

#[test]
fn an_unrecognised_control_type_is_accepted_and_does_nothing() {
    let mut rig = Rig::new();
    let frame = r#"{"control_type":"dance","password":"TEST123","movex":2,"movey":2,"key":"a"}"#;
    assert_eq!(rig.receive(frame), Ok(()));
    rig.tick();
    assert_eq!(rig.device, vec![DeviceAction::MoveRelative { dx: 0, dy: 0 }]);
}

#[test]
fn upward_motion_becomes_negative_device_motion() {
    let mut rig = Rig::new();
    let frame =
        r#"{"control_type":"move","password":"TEST123","movex":-0.5,"movey":0.25,"key":""}"#;
    assert_eq!(rig.receive(frame), Ok(()));
    rig.tick();
    assert_eq!(rig.actuator.velocity(), Velocity { x: -5, y: -2 });
}
