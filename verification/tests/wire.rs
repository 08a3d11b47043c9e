use gall::message::{AppMessage, FormatError, FRAME_WIDTH};
use gall::pickers::PickerKind;

fn all_messages() -> Vec<AppMessage> {
    vec![
        AppMessage::TogglePicker(PickerKind::Apps),
        AppMessage::TogglePicker(PickerKind::NoPicker),
        AppMessage::AppPing,
        AppMessage::AppClose,
        AppMessage::AppReload,
    ]
}

#[test]
fn round_trip_every_message() {
    for m in all_messages() {
        let frame = m.encode();
        assert_eq!(frame.len(), FRAME_WIDTH);
        assert_eq!(AppMessage::decode(&frame), Ok(m));
    }
}

#[test]
fn frames_have_documented_bytes() {
    assert_eq!(AppMessage::TogglePicker(PickerKind::Apps).encode(), [0u8, 0u8]);
    assert_eq!(AppMessage::TogglePicker(PickerKind::NoPicker).encode(), [0u8, 1u8]);
    assert_eq!(AppMessage::AppPing.encode(), [1u8, 0u8]);
    assert_eq!(AppMessage::AppClose.encode(), [2u8, 0u8]);
    assert_eq!(AppMessage::AppReload.encode(), [3u8, 0u8]);
}

#[test]
fn wrong_size_is_rejected() {
    assert_eq!(AppMessage::decode(&[]), Err(FormatError::WrongSize));
    assert_eq!(AppMessage::decode(&[1]), Err(FormatError::WrongSize));
    assert_eq!(AppMessage::decode(&[1, 0, 0]), Err(FormatError::WrongSize));
    let long = vec![0u8; 1024];
    assert_eq!(AppMessage::decode(&long), Err(FormatError::WrongSize));
}

#[test]
fn unknown_tag_is_corrupt() {
    assert_eq!(AppMessage::decode(&[4, 0]), Err(FormatError::Corrupt));
    assert_eq!(AppMessage::decode(&[255, 0]), Err(FormatError::Corrupt));
}

#[test]
fn unknown_kind_is_corrupt() {
    assert_eq!(AppMessage::decode(&[0, 2]), Err(FormatError::Corrupt));
    assert_eq!(AppMessage::decode(&[0, 255]), Err(FormatError::Corrupt));
}

#[test]
fn argument_of_plain_messages_is_not_read() {
    assert_eq!(AppMessage::decode(&[1, 9]), Ok(AppMessage::AppPing));
    assert_eq!(AppMessage::decode(&[2, 9]), Ok(AppMessage::AppClose));
    assert_eq!(AppMessage::decode(&[3, 9]), Ok(AppMessage::AppReload));
}

#[test]
fn kinds_are_dense_and_stable() {
    let kinds = PickerKind::variants();
    assert_eq!(kinds.len(), 1);
    assert_eq!(kinds[0], PickerKind::Apps);
    for (i, k) in kinds.iter().enumerate() {
        assert_eq!(k.index() as usize, i);
        assert_eq!(PickerKind::from_index(i as u8), Some(*k));
    }
    assert_eq!(PickerKind::NoPicker.index() as usize, kinds.len());
    assert_eq!(PickerKind::from_index(1), Some(PickerKind::NoPicker));
    assert_eq!(PickerKind::from_index(2), None);
}
