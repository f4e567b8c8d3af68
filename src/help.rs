//! The content of the help command: what the bot does in a server and in
//! direct messages, and where to invite it from.
use vstd::prelude::*;
use crate::packer::{block_views, Block, BlockField, BlockView, FieldView};

verus! {

/// The color of the help blocks.
pub const HELP_COLOR: u32 = 3092790;

pub open spec fn field_view(name: Seq<char>, value: Seq<char>, inline: bool) -> FieldView {
    FieldView { name, value, inline }
}

pub open spec fn help_block(
    title: Seq<char>,
    description: Seq<char>,
    fields: Seq<FieldView>,
    image: Option<Seq<char>>,
) -> BlockView {
    BlockView {
        title: Some(title),
        description: Some(description),
        color: Some(HELP_COLOR),
        fields,
        author: None,
        author_icon: None,
        footer: None,
        footer_icon: None,
        image,
    }
}

/// Help on using the bot in a server.
pub open spec fn server_help() -> BlockView {
    help_block(
        "Server Help"@,
        "Bookermarker is a simple bot that allows users to bookmark messages by using interactions. Right click on a message --> Apps --> Bookmark. The bot will DM you with the contents of the message."@,
        seq![
            field_view(
                "Command Permissions"@,
                "To manage in which roles / channels Bookmarker can be used, head to Server settings --> Integrations --> Bookmarker and adjust the **Bookmark** command. For more information on managing slash command perms see this [discord article.](https://support.discord.com/hc/en-us/articles/10952896421783)"@,
                false,
            ),
        ],
        Some("https://i.imgur.com/g5nLSDR.png"@),
    )
}

/// Help on what the bot offers in direct messages.
pub open spec fn dm_help() -> BlockView {
    help_block(
        "DM Help"@,
        "Bookmarker offers some unique interactions in DMs to help organise and add notes to bookmarks."@,
        seq![
            field_view(
                ":pencil: Add Note (coming soon)"@,
                "Adds a note to the bookmark. Leave blank to remove the note"@,
                true,
            ),
            field_view(
                ":art: Change Embed Colour"@,
                "Update the colour of the embed from a selection."@,
                true,
            ),
            field_view(":x: Delete Bookmark"@, "Deletes the bookmark instantly."@, true),
        ],
        None,
    )
}

fn field(name: &str, value: &str, inline: bool) -> (r: BlockField)
    ensures
        r@ == field_view(name@, value@, inline),
{
    BlockField { name: String::from_str(name), value: String::from_str(value), inline }
}

fn block(title: &str, description: &str, fields: Vec<BlockField>, image: Option<&str>) -> (r: Block)
    ensures
        r@ == help_block(
            title@,
            description@,
            fields@.map_values(|f: BlockField| f@),
            match image {
                Some(i) => Some(i@),
                None => None,
            },
        ),
{
    let mut b = Block::new();
    b.title = Some(String::from_str(title));
    b.description = Some(String::from_str(description));
    b.color = Some(HELP_COLOR);
    b.fields = fields;
    b.image = match image {
        Some(i) => Some(String::from_str(i)),
        None => None,
    };
    b
}

/// The help blocks: server help then direct-message help when asked from a
/// server, direct-message help alone otherwise.
pub fn help_blocks(in_guild: bool) -> (r: Vec<Block>)
    ensures
        block_views(r@) == if in_guild {
            seq![server_help(), dm_help()]
        } else {
            seq![dm_help()]
        },
{
    let dm_fields = vec![
        field(":pencil: Add Note (coming soon)", "Adds a note to the bookmark. Leave blank to remove the note", true),
        field(":art: Change Embed Colour", "Update the colour of the embed from a selection.", true),
        field(":x: Delete Bookmark", "Deletes the bookmark instantly.", true),
    ];
    assert(dm_fields@.map_values(|f: BlockField| f@) =~= dm_help().fields);
    let dm = block(
        "DM Help",
        "Bookmarker offers some unique interactions in DMs to help organise and add notes to bookmarks.",
        dm_fields,
        None,
    );
    if !in_guild {
        let r = vec![dm];
        assert(block_views(r@) =~= seq![dm_help()]);
        return r;
    }
    let server_fields = vec![
        field(
            "Command Permissions",
            "To manage in which roles / channels Bookmarker can be used, head to Server settings --> Integrations --> Bookmarker and adjust the **Bookmark** command. For more information on managing slash command perms see this [discord article.](https://support.discord.com/hc/en-us/articles/10952896421783)",
            false,
        ),
    ];
    assert(server_fields@.map_values(|f: BlockField| f@) =~= server_help().fields);
    let server = block(
        "Server Help",
        "Bookermarker is a simple bot that allows users to bookmark messages by using interactions. Right click on a message --> Apps --> Bookmark. The bot will DM you with the contents of the message.",
        server_fields,
        Some("https://i.imgur.com/g5nLSDR.png"),
    );
    let r = vec![server, dm];
    assert(block_views(r@) =~= seq![server_help(), dm_help()]);
    r
}

/// The link that invites the bot, with the application `app_id`, to a server.
pub fn invite_url(app_id: &str) -> (r: String)
    ensures
        r@ == "https://discord.com/api/oauth2/authorize?client_id="@ + app_id@
            + "&permissions=0&scope=bot%20applications.commands"@,
{
    let mut url = String::from_str("https://discord.com/api/oauth2/authorize?client_id=");
    url.append(app_id);
    url.append("&permissions=0&scope=bot%20applications.commands");
    url
}

} // verus!
