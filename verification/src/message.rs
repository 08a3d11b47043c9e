//! Fixed-width wire frames for the commands a client can send to the daemon.

use vstd::prelude::*;
use crate::pickers::PickerKind;

verus! {

/// Width in bytes of every frame: a tag byte followed by an argument byte.
pub const FRAME_WIDTH: usize = 2;

pub const TAG_TOGGLE: u8 = 0;
pub const TAG_PING: u8 = 1;
pub const TAG_CLOSE: u8 = 2;
pub const TAG_RELOAD: u8 = 3;

/// A command for the daemon.
#[derive(PartialEq, Eq, Structural, Clone, Copy, Debug)]
pub enum AppMessage {
    /// Show the named picker, or hide the window if it is shown.
    TogglePicker(PickerKind),
    /// Liveness probe, answered by echoing the frame.
    AppPing,
    /// Shut the daemon down.
    AppClose,
    /// Re-read the configuration and hand it to every picker.
    AppReload,
}

/// Why a byte sequence is not a frame.
#[derive(PartialEq, Eq, Structural, Clone, Copy, Debug)]
pub enum FormatError {
    /// The sequence is not exactly `FRAME_WIDTH` bytes long.
    WrongSize,
    /// The tag byte names no message, or a toggle names no picker kind.
    Corrupt,
}

impl AppMessage {
    /// The tag byte of the message.
    pub open spec fn tag_spec(self) -> u8 {
        match self {
            AppMessage::TogglePicker(_) => TAG_TOGGLE,
            AppMessage::AppPing => TAG_PING,
            AppMessage::AppClose => TAG_CLOSE,
            AppMessage::AppReload => TAG_RELOAD,
        }
    }

    /// The argument byte: the kind's index for a toggle, zero otherwise.
    pub open spec fn arg_spec(self) -> u8 {
        match self {
            AppMessage::TogglePicker(kind) => kind.index_spec() as u8,
            _ => 0,
        }
    }

    /// The frame of a message.
    pub open spec fn encode_spec(self) -> Seq<u8> {
        seq![self.tag_spec(), self.arg_spec()]
    }

    /// The message of a frame, or the reason there is none. The argument
    /// byte is read for a toggle only.
    pub open spec fn decode_spec(bytes: Seq<u8>) -> Result<AppMessage, FormatError> {
        if bytes.len() != FRAME_WIDTH {
            Err(FormatError::WrongSize)
        } else if bytes[0] == TAG_TOGGLE {
            if bytes[1] == 0 {
                Ok(AppMessage::TogglePicker(PickerKind::Apps))
            } else if bytes[1] == 1 {
                Ok(AppMessage::TogglePicker(PickerKind::NoPicker))
            } else {
                Err(FormatError::Corrupt)
            }
        } else if bytes[0] == TAG_PING {
            Ok(AppMessage::AppPing)
        } else if bytes[0] == TAG_CLOSE {
            Ok(AppMessage::AppClose)
        } else if bytes[0] == TAG_RELOAD {
            Ok(AppMessage::AppReload)
        } else {
            Err(FormatError::Corrupt)
        }
    }

    /// Writes the message as a frame of `FRAME_WIDTH` bytes.
    pub fn encode(&self) -> (frame: [u8; FRAME_WIDTH])
        ensures
            frame@ == self.encode_spec(),
            Self::decode_spec(frame@) == Ok::<AppMessage, FormatError>(*self),
    {
        let (tag, arg): (u8, u8) = match self {
            AppMessage::TogglePicker(kind) => (TAG_TOGGLE, kind.index()),
            AppMessage::AppPing => (TAG_PING, 0),
            AppMessage::AppClose => (TAG_CLOSE, 0),
            AppMessage::AppReload => (TAG_RELOAD, 0),
        };
        let frame: [u8; FRAME_WIDTH] = [tag, arg];
        assert(frame@ =~= self.encode_spec());
        frame
    }

    /// Reads a frame. Fails with `WrongSize` exactly when the input is not
    /// `FRAME_WIDTH` bytes long, and with `Corrupt` exactly when it has that
    /// length but its tag is unknown or its toggle names no kind.
    pub fn decode(bytes: &[u8]) -> (message: Result<AppMessage, FormatError>)
        ensures
            message == Self::decode_spec(bytes@),
            bytes@.len() != FRAME_WIDTH <==> message == Err::<AppMessage, FormatError>(
                FormatError::WrongSize,
            ),
    {
        if bytes.len() != FRAME_WIDTH {
            return Err(FormatError::WrongSize);
        }
        let tag: u8 = bytes[0];
        let arg: u8 = bytes[1];
        if tag == TAG_TOGGLE {
            match PickerKind::from_index(arg) {
                Some(kind) => Ok(AppMessage::TogglePicker(kind)),
                None => {
                    assert(PickerKind::Apps.index_spec() != arg);
                    assert(PickerKind::NoPicker.index_spec() != arg);
                    Err(FormatError::Corrupt)
                },
            }
        } else if tag == TAG_PING {
            Ok(AppMessage::AppPing)
        } else if tag == TAG_CLOSE {
            Ok(AppMessage::AppClose)
        } else if tag == TAG_RELOAD {
            Ok(AppMessage::AppReload)
        } else {
            Err(FormatError::Corrupt)
        }
    }
}

/// Decoding the frame of any message gives that message back.
pub proof fn lemma_round_trip(m: AppMessage)
    ensures
        AppMessage::decode_spec(m.encode_spec()) == Ok::<AppMessage, FormatError>(m),
        m.encode_spec().len() == FRAME_WIDTH,
{
}

/// A byte sequence of any length but `FRAME_WIDTH` is rejected as `WrongSize`,
/// and nothing else is.
pub proof fn lemma_wrong_size(bytes: Seq<u8>)
    ensures
        bytes.len() != FRAME_WIDTH <==> AppMessage::decode_spec(bytes) == Err::<
            AppMessage,
            FormatError,
        >(FormatError::WrongSize),
{
}

/// A frame is rejected as `Corrupt` exactly when it has the right width but
/// its tag is none of the four known, or it is a toggle whose argument is no
/// kind index.
pub proof fn lemma_corrupt(bytes: Seq<u8>)
    ensures
        AppMessage::decode_spec(bytes) == Err::<AppMessage, FormatError>(FormatError::Corrupt)
            <==> bytes.len() == FRAME_WIDTH && (bytes[0] > TAG_RELOAD || (bytes[0] == TAG_TOGGLE
            && bytes[1] > 1)),
{
}

/// Two messages with the same frame are the same message.
pub proof fn lemma_encode_injective(a: AppMessage, b: AppMessage)
    requires
        a.encode_spec() == b.encode_spec(),
    ensures
        a == b,
{
    lemma_round_trip(a);
    lemma_round_trip(b);
}

} // verus!
