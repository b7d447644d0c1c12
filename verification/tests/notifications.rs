//! Notifications and the recording notifier.

use anime_notif::notify::{
    clicked_action_url, Notification, NotificationAction, Notifier, NotifyError, NullNotifier, Sound,
};

fn notification() -> Notification {
    Notification {
        title: "One Piece".into(),
        body: "Episode 1121 [1080p]".into(),
        icon_path: None,
        image_path: None,
        sound: None,
        actions: vec![NotificationAction {
            id: "download".into(),
            label: "Download".into(),
            url: "http://127.0.0.1:9999/action?kind=download".into(),
        }],
    }
}

#[test]
fn null_notifier_records_notifications() {
    let mut notifier = NullNotifier::new();
    notifier.notify(&notification()).unwrap();
    let sent = &notifier.sent;
    assert_eq!(sent.len(), 1);
    assert_eq!(sent[0].title, "One Piece");
}

#[test]
fn null_notifier_keeps_every_field_in_order() {
    let mut notifier = NullNotifier::new();
    let mut second = notification();
    second.title = "Naruto".into();
    second.sound = Some(Sound::Name("message-new-instant".into()));
    notifier.notify(&notification()).unwrap();
    notifier.notify(&second).unwrap();
    assert_eq!(notifier.sent, vec![notification(), second]);
}

#[test]
fn clicked_action_maps_to_its_url() {
    let n = notification();
    assert_eq!(
        clicked_action_url(&n.actions, "download").as_deref(),
        Some("http://127.0.0.1:9999/action?kind=download")
    );
    assert_eq!(clicked_action_url(&n.actions, "__closed"), None);
    assert_eq!(clicked_action_url(&n.actions, "whitelist"), None);
}

#[test]
fn notify_error_message() {
    assert_eq!(NotifyError::Backend("no bus".into()).message(), "failed to show notification: no bus");
}
