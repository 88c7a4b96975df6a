//! What the firmware decides for each datagram it receives, and the HID
//! reports each command turns into. The HID calls, the hold between press and
//! release, and the socket stay with the caller, which performs the actions
//! chosen here.

use vstd::prelude::*;

use crate::protocol::{
    parse, pong_bytes, spec_parse, write_pong, Command, ParseError, MAX_REPLY_LEN, OP_KEY_DOWN,
    OP_KEY_TAP, OP_KEY_UP, OP_MEDIA_TAP, OP_MOUSE_BUTTONS, OP_MOUSE_CLICK, OP_MOUSE_MOVE,
};

verus! {

/// One call into the HID bridge, or the short hold between the press and the
/// release of a tap.
#[derive(Debug, Clone, Copy, PartialEq, Eq, Structural)]
pub enum HidStep {
    /// Press one keyboard key with a modifier bitmap.
    KeyboardPress { modifier: u8, keycode: u8 },
    /// Release all keyboard keys.
    KeyboardRelease,
    /// Send a mouse report (button bitmap and relative movement).
    MouseReport { buttons: u8, dx: i8, dy: i8 },
    /// Press a consumer-control (media) key.
    ConsumerPress { usage: u16 },
    /// Release the consumer-control key.
    ConsumerRelease,
    /// Wait the tap hold time.
    Hold,
}

/// The HID steps of a command, in order. A tap is a press, a hold and a
/// release; `KEY_DOWN` presses without releasing; `KEY_UP` releases whatever
/// is held; a mouse move carries no buttons and its wheel is not reported
/// (the device's HID descriptor has no wheel axis); `MOUSE_BUTTONS` reports the
/// raw button state. `PING` has no HID steps: it is answered with a `PONG`.
pub open spec fn spec_execute(c: Command) -> Seq<HidStep> {
    match c {
        Command::KeyTap { modifier, keycode } => seq![
            HidStep::KeyboardPress { modifier, keycode },
            HidStep::Hold,
            HidStep::KeyboardRelease,
        ],
        Command::KeyDown { modifier, keycode } => seq![HidStep::KeyboardPress { modifier, keycode }],
        Command::KeyUp => seq![HidStep::KeyboardRelease],
        Command::MouseMove { dx, dy, wheel: _ } => seq![HidStep::MouseReport { buttons: 0, dx, dy }],
        Command::MouseClick { buttons } => seq![
            HidStep::MouseReport { buttons, dx: 0, dy: 0 },
            HidStep::Hold,
            HidStep::MouseReport { buttons: 0, dx: 0, dy: 0 },
        ],
        Command::MouseButtons { buttons } => seq![HidStep::MouseReport { buttons, dx: 0, dy: 0 }],
        Command::MediaTap { usage } => seq![
            HidStep::ConsumerPress { usage },
            HidStep::Hold,
            HidStep::ConsumerRelease,
        ],
        Command::Ping { .. } => Seq::empty(),
    }
}

/// The HID steps that executing `command` takes, in order. They are performed
/// one at a time as `next_step` directs, which stops at the first HID call
/// that fails. `PING` is not executed: it is answered before dispatch.
pub fn execute(command: Command) -> (steps: Vec<HidStep>)
    requires
        !(command is Ping),
    ensures
        steps@ == spec_execute(command),
{
    match command {
        Command::KeyTap { modifier, keycode } => vec![
            HidStep::KeyboardPress { modifier, keycode },
            HidStep::Hold,
            HidStep::KeyboardRelease,
        ],
        Command::KeyDown { modifier, keycode } => vec![HidStep::KeyboardPress { modifier, keycode }],
        Command::KeyUp => vec![HidStep::KeyboardRelease],
        Command::MouseMove { dx, dy, wheel: _ } => vec![HidStep::MouseReport { buttons: 0, dx, dy }],
        Command::MouseClick { buttons } => vec![
            HidStep::MouseReport { buttons, dx: 0, dy: 0 },
            HidStep::Hold,
            HidStep::MouseReport { buttons: 0, dx: 0, dy: 0 },
        ],
        Command::MouseButtons { buttons } => vec![HidStep::MouseReport { buttons, dx: 0, dy: 0 }],
        Command::MediaTap { usage } => vec![
            HidStep::ConsumerPress { usage },
            HidStep::Hold,
            HidStep::ConsumerRelease,
        ],
        Command::Ping { .. } => Vec::new(),
    }
}

/// What to do next while executing a command.
#[derive(Debug, Clone, Copy, PartialEq, Eq, Structural)]
pub enum NextAction {
    /// Perform this step and report whether it succeeded.
    Perform(HidStep),
    /// The command is over. `failed_step` is the index of the step whose
    /// failure is the command's result, or `None` when every step succeeded.
    Finish { failed_step: Option<usize> },
}

/// The next action after the first `done` steps of `command` were performed,
/// the last of them reporting `last_ok` (ignored when nothing was performed
/// yet): a failed call ends the command with that failure, so nothing after
/// it (in particular no release after a failed press) is performed; otherwise
/// the next step is performed, and once all steps succeeded the command
/// succeeds.
pub open spec fn spec_next_step(command: Command, done: nat, last_ok: bool) -> NextAction {
    let steps = spec_execute(command);
    if done > 0 && !last_ok {
        NextAction::Finish { failed_step: Some((done - 1) as usize) }
    } else if done < steps.len() {
        NextAction::Perform(steps[done as int])
    } else {
        NextAction::Finish { failed_step: None }
    }
}

/// Decides the next action while executing `command`: the caller starts with
/// `done == 0`, performs each `Perform` step (a hold always succeeds), passes
/// back how many steps it performed and whether the last one succeeded, and
/// returns the failure of the reported step, or success, at `Finish`.
pub fn next_step(command: Command, done: usize, last_ok: bool) -> (action: NextAction)
    requires
        !(command is Ping),
        done <= spec_execute(command).len(),
    ensures
        action == spec_next_step(command, done as nat, last_ok),
{
    let steps = execute(command);
    if done > 0 && !last_ok {
        NextAction::Finish { failed_step: Some(done - 1) }
    } else if done < steps.len() {
        NextAction::Perform(steps[done])
    } else {
        NextAction::Finish { failed_step: None }
    }
}

/// A tap (key tap, mouse click, media tap) is a press, a hold and a release.
/// If the press fails, the command ends with that failure and nothing is
/// released; if it succeeds, the release follows the hold, and the command's
/// result is the release's.
pub proof fn lemma_tap_releases_only_after_successful_press(
    command: Command,
    press_ok: bool,
    release_ok: bool,
)
    requires
        command is KeyTap || command is MouseClick || command is MediaTap,
    ensures
        spec_next_step(command, 0, true) == NextAction::Perform(spec_execute(command)[0]),
        spec_next_step(command, 0, false) == NextAction::Perform(spec_execute(command)[0]),
        spec_next_step(command, 1, press_ok) == (if press_ok {
            NextAction::Perform(HidStep::Hold)
        } else {
            NextAction::Finish { failed_step: Some(0) }
        }),
        spec_next_step(command, 2, true) == NextAction::Perform(spec_execute(command)[2]),
        spec_next_step(command, 3, release_ok) == (NextAction::Finish {
            failed_step: if release_ok {
                None
            } else {
                Some(2)
            },
        }),
        spec_execute(command)[0] == match command {
            Command::KeyTap { modifier, keycode } => HidStep::KeyboardPress { modifier, keycode },
            Command::MouseClick { buttons } => HidStep::MouseReport { buttons, dx: 0, dy: 0 },
            Command::MediaTap { usage } => HidStep::ConsumerPress { usage },
            _ => HidStep::Hold,
        },
        spec_execute(command)[2] == match command {
            Command::KeyTap { .. } => HidStep::KeyboardRelease,
            Command::MouseClick { .. } => HidStep::MouseReport { buttons: 0, dx: 0, dy: 0 },
            Command::MediaTap { .. } => HidStep::ConsumerRelease,
            _ => HidStep::Hold,
        },
{
}

/// Every HID step carries the command's own values, unchanged: `KEY_DOWN`
/// presses exactly its modifier and keycode and releases nothing; `KEY_UP`
/// only releases; a move reports exactly its `dx` and `dy` with no button;
/// `MOUSE_BUTTONS` reports its raw button mask with every bit kept and no
/// movement; taps press with the command's values, hold, then release
/// (a mouse click releases by reporting no button).
pub proof fn lemma_steps_carry_command_values(command: Command)
    ensures
        command matches Command::KeyDown { modifier, keycode } ==> spec_execute(command) =~= seq![
            HidStep::KeyboardPress { modifier, keycode },
        ],
        command matches Command::KeyTap { modifier, keycode } ==> spec_execute(command) =~= seq![
            HidStep::KeyboardPress { modifier, keycode },
            HidStep::Hold,
            HidStep::KeyboardRelease,
        ],
        command is KeyUp ==> spec_execute(command) =~= seq![HidStep::KeyboardRelease],
        command matches Command::MouseMove { dx, dy, wheel } ==> spec_execute(command) =~= seq![
            HidStep::MouseReport { buttons: 0, dx, dy },
        ],
        command matches Command::MouseButtons { buttons } ==> {
            &&& spec_execute(command).len() == 1
            &&& spec_execute(command)[0] matches HidStep::MouseReport { buttons: b, dx, dy }
            &&& b == buttons
            &&& dx == 0 && dy == 0
            &&& forall|i: u8| i < 8 ==> (#[trigger] (b >> i) & 1u8) == (buttons >> i) & 1u8
        },
        command matches Command::MouseClick { buttons } ==> spec_execute(command) =~= seq![
            HidStep::MouseReport { buttons, dx: 0, dy: 0 },
            HidStep::Hold,
            HidStep::MouseReport { buttons: 0, dx: 0, dy: 0 },
        ],
        command matches Command::MediaTap { usage } ==> spec_execute(command) =~= seq![
            HidStep::ConsumerPress { usage },
            HidStep::Hold,
            HidStep::ConsumerRelease,
        ],
        command is Ping ==> spec_execute(command).len() == 0,
{
}

/// From datagram to HID: the steps a well-formed request datagram turns into
/// are made of its own payload bytes. A `KEY_DOWN` or `KEY_TAP` presses the
/// modifier byte 3 and keycode byte 4; a `MOUSE_CLICK` or `MOUSE_BUTTONS`
/// reports button byte 3 as it is; a move reports bytes 3 and 4 read as
/// signed; a media tap presses the little-endian usage of bytes 3 and 4.
pub proof fn lemma_datagram_bytes_reach_hid(buf: Seq<u8>)
    requires
        spec_parse(buf) is Ok,
    ensures
        buf[2] == OP_KEY_DOWN ==> spec_execute(spec_parse(buf)->Ok_0) =~= seq![
            HidStep::KeyboardPress { modifier: buf[3], keycode: buf[4] },
        ],
        buf[2] == OP_KEY_TAP ==> spec_execute(spec_parse(buf)->Ok_0) =~= seq![
            HidStep::KeyboardPress { modifier: buf[3], keycode: buf[4] },
            HidStep::Hold,
            HidStep::KeyboardRelease,
        ],
        buf[2] == OP_KEY_UP ==> spec_execute(spec_parse(buf)->Ok_0) =~= seq![
            HidStep::KeyboardRelease,
        ],
        buf[2] == OP_MOUSE_BUTTONS ==> spec_execute(spec_parse(buf)->Ok_0) =~= seq![
            HidStep::MouseReport { buttons: buf[3], dx: 0, dy: 0 },
        ],
        buf[2] == OP_MOUSE_CLICK ==> spec_execute(spec_parse(buf)->Ok_0) =~= seq![
            HidStep::MouseReport { buttons: buf[3], dx: 0, dy: 0 },
            HidStep::Hold,
            HidStep::MouseReport { buttons: 0, dx: 0, dy: 0 },
        ],
        buf[2] == OP_MOUSE_MOVE ==> {
            &&& spec_execute(spec_parse(buf)->Ok_0).len() == 1
            &&& spec_execute(spec_parse(buf)->Ok_0)[0] matches HidStep::MouseReport { buttons, dx, dy }
            &&& buttons == 0
            &&& dx as int == (if buf[3] < 128 { buf[3] as int } else { buf[3] as int - 256 })
            &&& dy as int == (if buf[4] < 128 { buf[4] as int } else { buf[4] as int - 256 })
        },
        buf[2] == OP_MEDIA_TAP ==> {
            &&& spec_execute(spec_parse(buf)->Ok_0).len() == 3
            &&& spec_execute(spec_parse(buf)->Ok_0)[0] matches HidStep::ConsumerPress { usage }
            &&& usage as int == buf[3] as int + 256 * (buf[4] as int)
            &&& spec_execute(spec_parse(buf)->Ok_0)[1] == HidStep::Hold
            &&& spec_execute(spec_parse(buf)->Ok_0)[2] == HidStep::ConsumerRelease
        },
{
    if buf.len() > 3 {
        assert(buf.skip(3)[0] == buf[3]);
    }
    if buf.len() > 4 {
        assert(buf.skip(3)[1] == buf[4]);
    }
}

/// What the server does with one received datagram.
#[derive(Debug, Clone, Copy)]
pub enum DatagramAction {
    /// Send the first `len` bytes of `bytes` back to the sender.
    Reply { bytes: [u8; 7], len: usize },
    /// Execute the command's HID steps; nothing is sent back.
    Execute(Command),
    /// Drop silently: the magic byte says it is not one of our packets.
    Ignore,
    /// Drop and log the reason: it looked like ours but was malformed.
    Reject(ParseError),
}

/// Decides what to do with a received datagram: a `PING` is answered with
/// the matching `PONG`, every other command is executed without a reply,
/// stray traffic (wrong magic) is dropped silently and other malformed
/// datagrams are dropped with their error.
pub fn dispatch_datagram(buf: &[u8]) -> (action: DatagramAction)
    ensures
        match spec_parse(buf@) {
            Ok(Command::Ping { seq }) => action matches DatagramAction::Reply { bytes, len } && len
                == MAX_REPLY_LEN && bytes@ == pong_bytes(seq),
            Ok(c) => action == DatagramAction::Execute(c),
            Err(ParseError::BadMagic(_)) => action == DatagramAction::Ignore,
            Err(e) => action == DatagramAction::Reject(e),
        },
        (action is Reply) <==> (spec_parse(buf@) matches Ok(Command::Ping { .. })),
{
    match parse(buf) {
        Ok(Command::Ping { seq }) => {
            let mut reply = [0u8; 7];
            let n = write_pong(seq, &mut reply);
            DatagramAction::Reply { bytes: reply, len: n }
        },
        Ok(command) => DatagramAction::Execute(command),
        Err(ParseError::BadMagic(_)) => DatagramAction::Ignore,
        Err(error) => DatagramAction::Reject(error),
    }
}

} // verus!
