//! Notifications: what one holds, the [`Notifier`] backends implement,
//! and a recording backend. Every action carries a full URL (the daemon's
//! loopback control server): native action buttons and plain links both
//! hit the same URL, so action handling lives in one place.

use vstd::prelude::*;

use crate::model::{clone_opt, opt_view};
use crate::text::{append, owned, str_eq};

verus! {

/// One clickable action on a notification: a stable id, a label, and the
/// URL to hit when it is chosen.
#[derive(Debug, Clone, PartialEq, Eq)]
pub struct NotificationAction {
    /// Stable identifier (e.g. `"download"`, `"whitelist"`, `"blacklist"`).
    pub id: String,
    /// Text shown on the button or link.
    pub label: String,
    /// URL to hit when this action is chosen.
    pub url: String,
}

/// A sound to play with a notification: a sound file, or a name from the
/// freedesktop sound theme.
#[derive(Debug, Clone, PartialEq, Eq)]
pub enum Sound {
    /// Path to a sound file.
    File(String),
    /// A freedesktop sound-theme name.
    Name(String),
}

/// A notification to show. `icon_path` is the small app/source badge;
/// `image_path` is the big content image (the show's cover art).
#[derive(Debug, Clone, PartialEq, Eq)]
pub struct Notification {
    /// Title (typically the series name).
    pub title: String,
    /// Body (typically episode/resolution/method).
    pub body: String,
    /// Small badge icon, if any.
    pub icon_path: Option<String>,
    /// Big content image, if any.
    pub image_path: Option<String>,
    /// Sound to play, if any.
    pub sound: Option<Sound>,
    /// Available actions.
    pub actions: Vec<NotificationAction>,
}

/// Errors that can occur showing a notification.
#[derive(Debug, Clone)]
pub enum NotifyError {
    /// The platform backend rejected or failed to display it.
    Backend(String),
}

impl NotifyError {
    /// The error's text: `failed to show notification: <reason>`.
    pub fn message(&self) -> (r: String)
        ensures
            match self {
                NotifyError::Backend(m) => r@ == "failed to show notification: "@ + m@,
            },
    {
        match self {
            NotifyError::Backend(m) => {
                let mut out = owned("failed to show notification: ");
                append(&mut out, m.as_str());
                out
            },
        }
    }
}

impl NotificationAction {
    /// A copy of this action.
    pub fn duplicate(&self) -> (r: NotificationAction)
        ensures
            r == *self,
    {
        NotificationAction { id: self.id.clone(), label: self.label.clone(), url: self.url.clone() }
    }
}

impl Sound {
    /// A copy of this sound.
    pub fn duplicate(&self) -> (r: Sound)
        ensures
            r == *self,
    {
        match self {
            Sound::File(p) => Sound::File(p.clone()),
            Sound::Name(n) => Sound::Name(n.clone()),
        }
    }
}

impl Notification {
    /// A copy of this notification.
    pub fn duplicate(&self) -> (r: Notification)
        ensures
            r.title == self.title,
            r.body == self.body,
            r.icon_path == self.icon_path,
            r.image_path == self.image_path,
            r.sound == self.sound,
            r.actions@ == self.actions@,
    {
        let mut actions: Vec<NotificationAction> = Vec::new();
        let mut i: usize = 0;
        while i < self.actions.len()
            invariant
                i <= self.actions@.len(),
                actions@ == self.actions@.take(i as int),
            decreases self.actions@.len() - i,
        {
            actions.push(self.actions[i].duplicate());
            proof {
                assert(self.actions@.take(i + 1) == self.actions@.take(i as int).push(self.actions@[i as int]));
            }
            i = i + 1;
        }
        proof {
            assert(self.actions@.take(i as int) == self.actions@);
        }
        Notification {
            title: self.title.clone(),
            body: self.body.clone(),
            icon_path: clone_opt(&self.icon_path),
            image_path: clone_opt(&self.image_path),
            sound: match &self.sound {
                Some(s) => Some(s.duplicate()),
                None => None,
            },
            actions,
        }
    }
}

/// A platform notification backend.
pub trait Notifier {
    /// Shows a notification. Returns once it has been shown; action
    /// clicks arrive later (or never) by hitting the action's URL.
    fn notify(&mut self, notification: &Notification) -> Result<(), NotifyError>;
}

/// Records every notification it is asked to show instead of displaying
/// anything. Used in tests, and where there is no native backend.
#[derive(Debug, Default)]
pub struct NullNotifier {
    /// Every notification passed to [`Notifier::notify`], in order.
    pub sent: Vec<Notification>,
}

impl NullNotifier {
    /// Creates an empty recorder.
    pub fn new() -> (r: NullNotifier)
        ensures
            r.sent@.len() == 0,
    {
        NullNotifier { sent: Vec::new() }
    }
}

impl Notifier for NullNotifier {
    fn notify(&mut self, notification: &Notification) -> (r: Result<(), NotifyError>)
        ensures
            r is Ok,
            final(self).sent@.len() == old(self).sent@.len() + 1,
            forall|i: int| 0 <= i < old(self).sent@.len() ==> final(self).sent@[i] == old(self).sent@[i],
            final(self).sent@.last().title == notification.title,
            final(self).sent@.last().body == notification.body,
            final(self).sent@.last().icon_path == notification.icon_path,
            final(self).sent@.last().image_path == notification.image_path,
            final(self).sent@.last().sound == notification.sound,
            final(self).sent@.last().actions@ == notification.actions@,
    {
        self.sent.push(notification.duplicate());
        Ok(())
    }
}

/// The URL of the action a native notification reports as clicked, or
/// `None` when it was closed without one (`__closed`) or the id matches
/// no action.
pub open spec fn clicked_url(actions: Seq<NotificationAction>, action_id: Seq<char>) -> Option<Seq<char>>
    decreases actions.len(),
{
    if action_id == "__closed"@ || actions.len() == 0 {
        None
    } else if actions[0].id@ == action_id {
        Some(actions[0].url@)
    } else {
        clicked_url(actions.drop_first(), action_id)
    }
}

/// The URL to hit for the action id a native notification reports as
/// clicked: that of the first action with that id; `None` for `__closed`
/// or an unknown id.
pub fn clicked_action_url(actions: &Vec<NotificationAction>, action_id: &str) -> (r: Option<String>)
    ensures
        opt_view(r) == clicked_url(actions@, action_id@),
{
    if str_eq(action_id, "__closed") {
        return None;
    }
    let mut i: usize = 0;
    proof {
        assert(actions@.skip(0) == actions@);
    }
    while i < actions.len()
        invariant
            i <= actions@.len(),
            action_id@ != "__closed"@,
            clicked_url(actions@, action_id@) == clicked_url(actions@.skip(i as int), action_id@),
        decreases actions@.len() - i,
    {
        proof {
            assert(actions@.skip(i as int).drop_first() == actions@.skip(i + 1));
        }
        if str_eq(actions[i].id.as_str(), action_id) {
            return Some(actions[i].url.clone());
        }
        i = i + 1;
    }
    None
}

} // verus!
