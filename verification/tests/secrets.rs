use rclone_mount_ext::secret::{
    fetch_on, AutoReset, FetchCommand, FetchInput, PasswordEntry, PasswordError, Place,
};

#[test]
fn reset_overwrites_every_byte() {
    let mut secret = AutoReset::new(b"hunter2".to_vec());
    assert_eq!(secret.as_slice(), b"hunter2");
    secret.reset();
    assert_eq!(secret.as_slice(), &[0u8; 7]);
}

#[test]
fn attributes_without_target() {
    let entry: PasswordEntry<u8> = PasswordEntry::new(None);
    let expected = vec![("service".to_string(), "rclone-mount-ext".to_string())];
    assert_eq!(*entry.attributes(), expected);
}

#[test]
fn attributes_with_target() {
    let entry: PasswordEntry<u8> = PasswordEntry::new(Some("home".to_string()));
    let expected = vec![
        ("service".to_string(), "rclone-mount-ext".to_string()),
        ("target".to_string(), "home".to_string()),
    ];
    assert_eq!(*entry.attributes(), expected);
}

#[test]
fn connection_is_kept_only_by_a_fetch_that_succeeds() {
    let mut entry: PasswordEntry<u8> = PasswordEntry::new(None);
    assert_eq!(entry.get_password(), (None, FetchCommand::Connect));
    let secret = entry.password_read(11, b"pw".to_vec());
    assert_eq!(secret.as_slice(), b"pw");
    assert_eq!(entry.get_password(), (Some(11), FetchCommand::Search));
    // That fetch failed, so the next one connects anew.
    assert_eq!(entry.get_password(), (None, FetchCommand::Connect));
}

#[test]
fn unlocked_item_is_read() {
    assert_eq!(fetch_on(FetchInput::Connected), FetchCommand::Search);
    assert_eq!(
        fetch_on(FetchInput::Found { locked: 0, unlocked: 1 }),
        FetchCommand::Read(Place::Unlocked)
    );
}

#[test]
fn locked_item_is_unlocked_and_read() {
    assert_eq!(fetch_on(FetchInput::Found { locked: 1, unlocked: 0 }), FetchCommand::Unlock);
    assert_eq!(fetch_on(FetchInput::ItemUnlocked), FetchCommand::Read(Place::Locked));
}

#[test]
fn no_item_is_an_error() {
    let command = fetch_on(FetchInput::Found { locked: 0, unlocked: 0 });
    assert_eq!(command, FetchCommand::Fail(PasswordError::NotFound));
    assert_eq!(
        PasswordError::NotFound.message(),
        Some("The password of `rclone` isn't found")
    );
}

#[test]
fn several_items_are_an_error() {
    for (locked, unlocked) in [(1, 1), (2, 0), (0, 2), (usize::MAX, usize::MAX), (usize::MAX, 1)] {
        assert_eq!(
            fetch_on(FetchInput::Found { locked, unlocked }),
            FetchCommand::Fail(PasswordError::Ambiguous)
        );
    }
    assert_eq!(
        PasswordError::Ambiguous.message(),
        Some("There are more than one item matchcing those attributes of the password of `rclone`")
    );
}

#[test]
fn failing_service_is_an_error() {
    assert_eq!(fetch_on(FetchInput::Failed), FetchCommand::Fail(PasswordError::Service));
    assert_eq!(PasswordError::Service.message(), None);
}
