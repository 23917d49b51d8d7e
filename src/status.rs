use vstd::prelude::*;

verus! {

/// How long a status message stays shown, in milliseconds.
pub const MESSAGE_LIFETIME_MS: u64 = 5000;

/// A one-line message with the time it was set, in milliseconds on the
/// application's clock.
pub struct StatusMessage {
    pub message: Option<String>,
    pub set_time: Option<u64>,
}

impl StatusMessage {
    /// Whether a message set at `set_time` has expired at `now`.
    pub open spec fn expired(set_time: u64, now: u64) -> bool {
        now > set_time && now - set_time > MESSAGE_LIFETIME_MS
    }

    pub fn new(message: String, now: u64) -> (r: StatusMessage)
        ensures
            r.message == Some(message),
            r.set_time == Some(now),
    {
        StatusMessage { message: Some(message), set_time: Some(now) }
    }

    /// Replaces the message, which is shown from `now` on.
    pub fn set_message(&mut self, message: String, now: u64)
        ensures
            final(self).message == Some(message),
            final(self).set_time == Some(now),
    {
        self.message = Some(message);
        self.set_time = Some(now);
    }

    /// The message still shown at `now`; an expired message is dropped.
    pub fn message(&mut self, now: u64) -> (r: Option<&String>)
        ensures
            match old(self).set_time {
                None => r.is_none() && *final(self) == *old(self),
                Some(t) => if Self::expired(t, now) {
                    &&& r.is_none()
                    &&& final(self).message.is_none()
                    &&& final(self).set_time.is_none()
                } else {
                    &&& *final(self) == *old(self)
                    &&& r.is_some() == old(self).message.is_some()
                    &&& r matches Some(m) ==> Some(*m) == old(self).message
                },
            },
    {
        match self.set_time {
            None => None,
            Some(time) => {
                if now > time && now - time > MESSAGE_LIFETIME_MS {
                    self.message = None;
                    self.set_time = None;
                    None
                } else {
                    self.message.as_ref()
                }
            },
        }
    }
}

} // verus!
