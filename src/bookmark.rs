//! The decisions of the bookmark command. It opens a direct-message channel
//! with the user, then sends the bookmark there; after each call it either
//! goes on or answers the user.
use vstd::prelude::*;

verus! {

pub const STATUS_OK: u16 = 200;

pub const STATUS_FORBIDDEN: u16 = 403;

/// The answer the user gets, in place of going on.
#[derive(Clone, Copy, Debug, PartialEq, Eq, Structural)]
pub enum BookmarkReply {
    /// The command was used outside a server.
    ServerOnly,
    /// A request could not be sent at all.
    OpenDms,
    /// The platform refused to open the channel.
    NotAuthorized,
    /// Opening the channel failed with this status.
    ChannelFailed(u16),
    /// The channel was opened but its id is missing.
    ChannelMissing,
    /// The bookmark was sent.
    Bookmarked,
    /// The platform refused the message: the user's direct messages are closed.
    OpenDmsInServer,
    /// Sending the bookmark failed otherwise.
    SendFailed,
}

/// Whether the command may start: only inside a server.
pub fn on_start(in_guild: bool) -> (r: Option<BookmarkReply>)
    ensures
        r == if in_guild { None } else { Some(BookmarkReply::ServerOnly) },
{
    if in_guild {
        None
    } else {
        Some(BookmarkReply::ServerOnly)
    }
}

/// After asking for the channel: `status` is none when the request could not
/// be sent, `has_id` whether the answer names the channel. None means go on
/// and send the bookmark.
pub fn on_channel(status: Option<u16>, has_id: bool) -> (r: Option<BookmarkReply>)
    ensures
        r == match status {
            None => Some(BookmarkReply::OpenDms),
            Some(s) => if s == STATUS_OK {
                if has_id {
                    None
                } else {
                    Some(BookmarkReply::ChannelMissing)
                }
            } else if s == STATUS_FORBIDDEN {
                Some(BookmarkReply::NotAuthorized)
            } else {
                Some(BookmarkReply::ChannelFailed(s))
            },
        },
{
    match status {
        None => Some(BookmarkReply::OpenDms),
        Some(s) => {
            if s == STATUS_OK {
                if has_id {
                    None
                } else {
                    Some(BookmarkReply::ChannelMissing)
                }
            } else if s == STATUS_FORBIDDEN {
                Some(BookmarkReply::NotAuthorized)
            } else {
                Some(BookmarkReply::ChannelFailed(s))
            }
        },
    }
}

/// After sending the bookmark: `status` is none when the request could not
/// be sent.
pub fn on_sent(status: Option<u16>) -> (r: BookmarkReply)
    ensures
        r == match status {
            None => BookmarkReply::OpenDms,
            Some(s) => if s == STATUS_OK {
                BookmarkReply::Bookmarked
            } else if s == STATUS_FORBIDDEN {
                BookmarkReply::OpenDmsInServer
            } else {
                BookmarkReply::SendFailed
            },
        },
{
    match status {
        None => BookmarkReply::OpenDms,
        Some(s) => {
            if s == STATUS_OK {
                BookmarkReply::Bookmarked
            } else if s == STATUS_FORBIDDEN {
                BookmarkReply::OpenDmsInServer
            } else {
                BookmarkReply::SendFailed
            }
        },
    }
}

impl BookmarkReply {
    /// The text shown to the user; none for a sent bookmark, which is
    /// answered with a button, and for a failed channel, whose text names
    /// the status.
    pub fn text(&self) -> (r: Option<&'static str>)
        ensures
            match *self {
                BookmarkReply::ServerOnly => r == Some("This command can only be used in a server"),
                BookmarkReply::OpenDms => r == Some("Open your dms to the bot"),
                BookmarkReply::NotAuthorized => r == Some(
                    "The bot is not authorized to create a dm channel with you",
                ),
                BookmarkReply::ChannelMissing => r == Some(
                    "An error occured while creating a dm channel with you",
                ),
                BookmarkReply::OpenDmsInServer => r == Some(
                    "Open your dms in this server to use this command",
                ),
                BookmarkReply::SendFailed => r == Some(
                    "An error occured while sending a message in this channel",
                ),
                BookmarkReply::ChannelFailed(_) | BookmarkReply::Bookmarked => r is None,
            },
    {
        match self {
            BookmarkReply::ServerOnly => Some("This command can only be used in a server"),
            BookmarkReply::OpenDms => Some("Open your dms to the bot"),
            BookmarkReply::NotAuthorized => Some(
                "The bot is not authorized to create a dm channel with you",
            ),
            BookmarkReply::ChannelMissing => Some("An error occured while creating a dm channel with you"),
            BookmarkReply::OpenDmsInServer => Some("Open your dms in this server to use this command"),
            BookmarkReply::SendFailed => Some("An error occured while sending a message in this channel"),
            BookmarkReply::ChannelFailed(_) | BookmarkReply::Bookmarked => None,
        }
    }
}

} // verus!
