//! Decoding a content-update notification from a POST body.
//!
//! The six scanned tags give five textual fields and two ISO-8601
//! timestamps. The timestamps are kept as nanoseconds since the Unix
//! epoch; a negative distance between them is possible and must not
//! panic. A notification is "new" when `updated - published` is under
//! five minutes.

use vstd::prelude::*;
use vstd::string::StrSliceExecFns;
use vstd::string::StringSliceAdditionalSpecFns;

use crate::error::{Error, NotificationError, SpecError, SpecNotificationError};
use crate::parse::{
    channelid_name, name_name, parse_xml, published_name, spec_parse_xml, title_name,
    updated_name, videoid_name,
};

verus! {

/// Nanoseconds since the Unix epoch of the instant an ISO-8601 byte string
/// denotes, or `None` when the bytes do not denote one. The instant is a
/// function of the bytes alone.
pub uninterp spec fn iso_datetime(s: Seq<u8>) -> Option<int>;

/// Relies on `time::OffsetDateTime::parse` with the ISO-8601 format, whose
/// result depends on the input alone; the nanosecond timestamp of the
/// parsed instant is named `iso_datetime`. `core::str::from_utf8` converts
/// the argument and `unix_timestamp_nanos` the result.
#[verifier::external_body]
fn parse_iso8601(s: &[u8]) -> (r: Option<i128>)
    ensures
        match r {
            Some(v) => iso_datetime(s@) == Some(v as int),
            None => iso_datetime(s@) is None,
        },
{
    match core::str::from_utf8(s) {
        Ok(text) => {
            let format = time::format_description::well_known::Iso8601::DEFAULT;
            match time::OffsetDateTime::parse(text, &format) {
                Ok(t) => Some(t.unix_timestamp_nanos()),
                Err(_) => None,
            }
        }
        Err(_) => None,
    }
}

/// Five minutes, in nanoseconds.
pub const FIVE_MINUTES_NANOS: i128 = 300_000_000_000;

/// Spec-level notification.
pub struct SpecNotification {
    /// The video identifier.
    pub video_id: Seq<u8>,
    /// The channel identifier.
    pub channel_id: Seq<u8>,
    /// The video title.
    pub video_title: Seq<u8>,
    /// The channel or author name.
    pub channel_name: Seq<u8>,
    /// The published instant, nanoseconds since the Unix epoch.
    pub published: int,
    /// The updated instant, nanoseconds since the Unix epoch.
    pub updated: int,
    /// The body the notification was decoded from.
    pub raw: Seq<u8>,
}

/// Whether a notification announces new content rather than an edit:
/// its updated instant is under five minutes past its published one.
pub open spec fn spec_is_new(n: SpecNotification) -> bool {
    n.updated - n.published < FIVE_MINUTES_NANOS
}

/// What decoding a notification body returns, for every input.
pub open spec fn spec_try_parse(xml: Seq<u8>) -> Result<SpecNotification, SpecError> {
    let m = spec_parse_xml(xml);
    if !m.contains_key(videoid_name()) {
        Err(
            SpecError::Notification(
                SpecNotificationError::MissingParameter("yt:videoId".spec_bytes()),
            ),
        )
    } else if !m.contains_key(channelid_name()) {
        Err(
            SpecError::Notification(
                SpecNotificationError::MissingParameter("yt:channelId".spec_bytes()),
            ),
        )
    } else if !m.contains_key(title_name()) {
        Err(
            SpecError::Notification(SpecNotificationError::MissingParameter("title".spec_bytes())),
        )
    } else if !m.contains_key(name_name()) {
        Err(SpecError::Notification(SpecNotificationError::MissingParameter("name".spec_bytes())))
    } else if !m.contains_key(published_name()) {
        Err(
            SpecError::Notification(
                SpecNotificationError::MissingParameter("published".spec_bytes()),
            ),
        )
    } else {
        match iso_datetime(m[published_name()]) {
            None => Err(SpecError::Notification(SpecNotificationError::DateTimeError)),
            Some(p) => if !m.contains_key(updated_name()) {
                Err(
                    SpecError::Notification(
                        SpecNotificationError::MissingParameter("updated".spec_bytes()),
                    ),
                )
            } else {
                match iso_datetime(m[updated_name()]) {
                    None => Err(SpecError::Notification(SpecNotificationError::DateTimeError)),
                    Some(u) => Ok(
                        SpecNotification {
                            video_id: m[videoid_name()],
                            channel_id: m[channelid_name()],
                            video_title: m[title_name()],
                            channel_name: m[name_name()],
                            published: p,
                            updated: u,
                            raw: xml,
                        },
                    ),
                }
            },
        }
    }
}

/// A decoded content-update notification.
#[derive(Debug)]
pub struct Notification {
    /// The video identifier.
    pub video_id: Vec<u8>,
    /// The channel identifier.
    pub channel_id: Vec<u8>,
    /// The video title.
    pub video_title: Vec<u8>,
    /// The channel or author name.
    pub channel_name: Vec<u8>,
    /// The published instant, nanoseconds since the Unix epoch.
    pub published: i128,
    /// The updated instant, nanoseconds since the Unix epoch.
    pub updated: i128,
    /// The body the notification was decoded from.
    pub raw: Vec<u8>,
}

impl View for Notification {
    type V = SpecNotification;

    open spec fn view(&self) -> SpecNotification {
        SpecNotification {
            video_id: self.video_id@,
            channel_id: self.channel_id@,
            video_title: self.video_title@,
            channel_name: self.channel_name@,
            published: self.published as int,
            updated: self.updated as int,
            raw: self.raw@,
        }
    }
}

impl Notification {
    /// Decodes a notification body, as `spec_try_parse` describes it.
    pub fn try_parse(xml: &[u8]) -> (r: Result<Notification, Error>)
        ensures
            match r {
                Ok(n) => spec_try_parse(xml@) == Ok::<SpecNotification, SpecError>(n@),
                Err(e) => spec_try_parse(xml@) == Err::<SpecNotification, SpecError>(e@),
            },
    {
        let m = parse_xml(xml);
        let video_id = match m.get("yt:videoId".as_bytes()) {
            Some(v) => v,
            None => {
                return Err(
                    Error::Notification(
                        NotificationError::MissingParameter("yt:videoId".as_bytes_vec()),
                    ),
                );
            }
        };
        let channel_id = match m.get("yt:channelId".as_bytes()) {
            Some(v) => v,
            None => {
                return Err(
                    Error::Notification(
                        NotificationError::MissingParameter("yt:channelId".as_bytes_vec()),
                    ),
                );
            }
        };
        let video_title = match m.get("title".as_bytes()) {
            Some(v) => v,
            None => {
                return Err(
                    Error::Notification(
                        NotificationError::MissingParameter("title".as_bytes_vec()),
                    ),
                );
            }
        };
        let channel_name = match m.get("name".as_bytes()) {
            Some(v) => v,
            None => {
                return Err(
                    Error::Notification(NotificationError::MissingParameter("name".as_bytes_vec())),
                );
            }
        };
        let published_text = match m.get("published".as_bytes()) {
            Some(v) => v,
            None => {
                return Err(
                    Error::Notification(
                        NotificationError::MissingParameter("published".as_bytes_vec()),
                    ),
                );
            }
        };
        let published = match parse_iso8601(published_text.as_slice()) {
            Some(v) => v,
            None => {
                return Err(Error::Notification(NotificationError::DateTimeError));
            }
        };
        let updated_text = match m.get("updated".as_bytes()) {
            Some(v) => v,
            None => {
                return Err(
                    Error::Notification(
                        NotificationError::MissingParameter("updated".as_bytes_vec()),
                    ),
                );
            }
        };
        let updated = match parse_iso8601(updated_text.as_slice()) {
            Some(v) => v,
            None => {
                return Err(Error::Notification(NotificationError::DateTimeError));
            }
        };
        Ok(
            Notification {
                video_id,
                channel_id,
                video_title,
                channel_name,
                published,
                updated,
                raw: vstd::slice::slice_to_vec(xml),
            },
        )
    }

    /// A one-line-per-field text rendering of the notification.
    pub fn describe(&self) -> (r: Vec<u8>)
        ensures
            r@ == "Title: ".spec_bytes() + self.video_title@ + "\nAuthor: ".spec_bytes()
                + self.channel_name@ + "\n#id: ".spec_bytes() + self.video_id@
                + "; channel: ".spec_bytes() + self.channel_id@ + "\n".spec_bytes(),
    {
        let mut r = "Title: ".as_bytes_vec();
        crate::bytes::append_bytes(&mut r, self.video_title.as_slice());
        crate::bytes::append_bytes(&mut r, "\nAuthor: ".as_bytes());
        crate::bytes::append_bytes(&mut r, self.channel_name.as_slice());
        crate::bytes::append_bytes(&mut r, "\n#id: ".as_bytes());
        crate::bytes::append_bytes(&mut r, self.video_id.as_slice());
        crate::bytes::append_bytes(&mut r, "; channel: ".as_bytes());
        crate::bytes::append_bytes(&mut r, self.channel_id.as_slice());
        crate::bytes::append_bytes(&mut r, "\n".as_bytes());
        r
    }

    /// Whether this notification announces new content, as `spec_is_new`
    /// describes; a negative distance between the instants counts as new.
    pub fn is_new(&self) -> (r: bool)
        ensures
            r == spec_is_new(self@),
    {
        if self.updated < self.published {
            true
        } else {
            match self.updated.checked_sub(self.published) {
                Some(d) => d < FIVE_MINUTES_NANOS,
                None => false,
            }
        }
    }
}

} // verus!
