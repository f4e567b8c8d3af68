//! The color component's state, read from its identifier: which action a
//! click asks for, and where the bookmarked message lives.
use vstd::prelude::*;
use crate::dispatch::ResponseKind;
use crate::packer::{block_views, Block, BlockView};
use crate::token::{
    decode, decode_spec, encode, encode_spec, find_char, index_of, lemma_index_of, split_by,
    split_n, string_views, TokenError,
};

verus! {

/// The separator inside a message path `guild/channel/message`.
pub const PATH_SEP: char = '/';

/// What a click on the color component asks for.
pub enum ColorAction {
    /// No action yet: show the color picker.
    ShowPicker,
    /// Fetch the bookmarked message again and rebuild the bookmark.
    Refresh { guild: String, channel: String, message: String },
    /// Post the bookmark again, as a new message.
    Repost { guild: String },
    /// Give the bookmark's blocks this color.
    Recolor { color: u32 },
}

/// A decoded click: the action and the message path it carries (empty for
/// the picker).
pub struct ColorRequest {
    pub action: ColorAction,
    pub path: String,
}

#[derive(Clone, Copy, Debug, PartialEq, Eq, Structural)]
pub enum ColorError {
    /// The identifier is not a well-formed token.
    Token(TokenError),
    /// The message path lacks a part that the action needs.
    BadPath,
    /// The action is neither a known verb nor a color number.
    BadColor,
}

pub ghost enum ActionView {
    ShowPicker,
    Refresh(Seq<char>, Seq<char>, Seq<char>),
    Repost(Seq<char>),
    Recolor(u32),
}

pub open spec fn action_view(a: ColorAction) -> ActionView {
    match a {
        ColorAction::ShowPicker => ActionView::ShowPicker,
        ColorAction::Refresh { guild, channel, message } => ActionView::Refresh(
            guild@,
            channel@,
            message@,
        ),
        ColorAction::Repost { guild } => ActionView::Repost(guild@),
        ColorAction::Recolor { color } => ActionView::Recolor(color),
    }
}

pub open spec fn is_digit(c: char) -> bool {
    '0' <= c && c <= '9'
}

pub open spec fn all_digits(s: Seq<char>) -> bool {
    s.len() > 0 && forall|i: int| 0 <= i < s.len() ==> is_digit(#[trigger] s[i])
}

/// The number that a string of decimal digits spells.
pub open spec fn digits_value(s: Seq<char>) -> nat
    decreases s.len(),
{
    if s.len() == 0 {
        0
    } else {
        digits_value(s.drop_last()) * 10 + (s.last() as nat - '0' as nat) as nat
    }
}

/// The action that a verb asks for on a message path.
pub open spec fn expected_action(verb: Seq<char>, path: Seq<char>) -> Result<ActionView, ColorError> {
    if verb == "update"@ {
        let p = split_by(path, PATH_SEP, 3);
        if p.len() == 3 {
            Ok(ActionView::Refresh(p[0], p[1], p[2]))
        } else {
            Err(ColorError::BadPath)
        }
    } else if verb == "repost"@ {
        if index_of(path, PATH_SEP) >= 0 {
            Ok(ActionView::Repost(path.subrange(0, index_of(path, PATH_SEP))))
        } else {
            Err(ColorError::BadPath)
        }
    } else if all_digits(verb) && digits_value(verb) <= u32::MAX {
        Ok(ActionView::Recolor(digits_value(verb) as u32))
    } else {
        Err(ColorError::BadColor)
    }
}

/// What a color component identifier asks for: a token with no action is the
/// picker; otherwise the token's two fields are the verb and the message path.
pub open spec fn request_spec(id: Seq<char>) -> Result<(ActionView, Seq<char>), ColorError> {
    match decode_spec(id, 2) {
        Err(TokenError::NoAction) => Ok((ActionView::ShowPicker, Seq::empty())),
        Err(e) => Err(ColorError::Token(e)),
        Ok((_, fs)) => match expected_action(fs[0], fs[1]) {
            Ok(a) => Ok((a, fs[1])),
            Err(e) => Err(e),
        },
    }
}

proof fn lemma_prefix_value(s: Seq<char>, i: int)
    requires
        0 <= i <= s.len(),
        forall|j: int| 0 <= j < s.len() ==> is_digit(#[trigger] s[j]),
    ensures
        digits_value(s.take(i)) <= digits_value(s),
    decreases s.len(),
{
    if i < s.len() {
        let t = s.drop_last();
        assert forall|j: int| 0 <= j < t.len() implies is_digit(#[trigger] t[j]) by {
            assert(t[j] == s[j]);
        }
        lemma_prefix_value(t, i);
        assert(t.take(i) =~= s.take(i));
    } else {
        assert(s.take(i) =~= s);
    }
}

/// Reads a decimal number that fits in a `u32`: digits only, at least one.
pub fn parse_u32(s: &str) -> (r: Option<u32>)
    ensures
        match r {
            Some(v) => all_digits(s@) && digits_value(s@) == v,
            None => !(all_digits(s@) && digits_value(s@) <= u32::MAX),
        },
{
    let len = s.unicode_len();
    if len == 0 {
        return None;
    }
    let mut acc: u64 = 0;
    let mut i: usize = 0;
    while i < len
        invariant
            len == s@.len(),
            i <= len,
            acc == digits_value(s@.take(i as int)),
            acc <= u32::MAX,
            forall|j: int| 0 <= j < i ==> is_digit(#[trigger] s@[j]),
        decreases len - i,
    {
        let c = s.get_char(i);
        if !('0' <= c && c <= '9') {
            return None;
        }
        proof {
            assert(s@.take(i + 1).drop_last() =~= s@.take(i as int));
        }
        acc = acc * 10 + (c as u32 - '0' as u32) as u64;
        if acc > 0xffff_ffffu64 {
            proof {
                if all_digits(s@) {
                    lemma_prefix_value(s@, i + 1);
                }
            }
            return None;
        }
        i = i + 1;
    }
    assert(s@.take(len as int) =~= s@);
    Some(acc as u32)
}

fn is_text(s: &String, lit: &str) -> (r: bool)
    ensures
        r == (s@ == lit@),
{
    s.eq(&String::from_str(lit))
}

/// Reads what a click on the color component asks for.
pub fn color_request(custom_id: &str) -> (r: Result<ColorRequest, ColorError>)
    ensures
        match r {
            Ok(req) => request_spec(custom_id@) == Ok::<(ActionView, Seq<char>), ColorError>(
                (action_view(req.action), req.path@),
            ),
            Err(e) => request_spec(custom_id@) == Err::<(ActionView, Seq<char>), ColorError>(e),
        },
{
    let (_action, fields) = match decode(custom_id, 2) {
        Ok(d) => d,
        Err(TokenError::NoAction) => {
            return Ok(ColorRequest { action: ColorAction::ShowPicker, path: String::new() });
        },
        Err(e) => {
            return Err(ColorError::Token(e));
        },
    };
    assert(split_by(custom_id@, crate::token::DELIM, 3).len() == 3);
    assert(string_views(fields@).len() == 2);
    assert(fields@.len() == 2);
    assert(string_views(fields@)[0] == fields@[0]@);
    assert(string_views(fields@)[1] == fields@[1]@);
    let verb = &fields[0];
    let path = &fields[1];
    let action = if is_text(verb, "update") {
        let parts = split_n(path.as_str(), PATH_SEP, 2);
        if parts.len() != 3 {
            return Err(ColorError::BadPath);
        }
        assert(string_views(parts@)[0] == parts@[0]@);
        assert(string_views(parts@)[1] == parts@[1]@);
        assert(string_views(parts@)[2] == parts@[2]@);
        ColorAction::Refresh {
            guild: parts[0].clone(),
            channel: parts[1].clone(),
            message: parts[2].clone(),
        }
    } else if is_text(verb, "repost") {
        let d = find_char(path.as_str(), PATH_SEP, 0);
        proof {
            lemma_index_of(path@, PATH_SEP);
            if d < path@.len() {
                crate::token::lemma_first_index(path@, PATH_SEP, d as int);
            } else {
                assert forall|j: int| 0 <= j < path@.len() implies path@[j] != PATH_SEP by {}
            }
        }
        if d == path.unicode_len() {
            return Err(ColorError::BadPath);
        }
        ColorAction::Repost { guild: path.as_str().substring_char(0, d).to_string() }
    } else {
        match parse_u32(verb.as_str()) {
            Some(color) => ColorAction::Recolor { color },
            None => {
                return Err(ColorError::BadColor);
            },
        }
    };
    Ok(ColorRequest { action, path: path.clone() })
}

/// The prefix of a message's jump link; what follows it is the message path.
pub open spec fn jump_prefix() -> Seq<char> {
    "https://discord.com/channels/"@
}

/// The message path of a jump link, if it is one.
pub fn jump_path(url: &str) -> (r: Option<String>)
    ensures
        match r {
            Some(p) => url@ == jump_prefix() + p@,
            None => !(jump_prefix().len() <= url@.len() && url@.subrange(0, jump_prefix().len() as int)
                == jump_prefix()),
        },
{
    let prefix = "https://discord.com/channels/";
    if !crate::dispatch::prefix_of(prefix, url) {
        return None;
    }
    let n = prefix.unicode_len();
    let rest = url.substring_char(n, url.unicode_len()).to_string();
    assert(url@ =~= jump_prefix() + rest@);
    Some(rest)
}

/// The identifier of the picker button for `verb` on the message at `path`.
pub fn picker_token(verb: &str, path: &str) -> (r: Result<String, TokenError>)
    ensures
        match r {
            Ok(t) => encode_spec("color"@, seq![verb@, path@]) == Ok::<Seq<char>, TokenError>(t@),
            Err(e) => encode_spec("color"@, seq![verb@, path@]) == Err::<Seq<char>, TokenError>(e),
        },
{
    let fields = vec![String::from_str(verb), String::from_str(path)];
    assert(string_views(fields@) =~= seq![verb@, path@]);
    encode("color", &fields)
}

/// How the answer to a click is sent: a repost is a new message, every other
/// action updates the bookmark in place.
pub fn reply_kind(action: &ColorAction) -> (r: ResponseKind)
    ensures
        r == match action {
            ColorAction::Repost { .. } => ResponseKind::ChannelMessageWithSource,
            _ => ResponseKind::UpdateMessage,
        },
{
    match action {
        ColorAction::Repost { .. } => ResponseKind::ChannelMessageWithSource,
        _ => ResponseKind::UpdateMessage,
    }
}

pub open spec fn recolored(bs: Seq<BlockView>, color: u32) -> Seq<BlockView> {
    Seq::new(bs.len(), |i: int| BlockView { color: Some(color), ..bs[i] })
}

/// Gives every block the color `color`, changing nothing else.
pub fn recolor(blocks: &mut Vec<Block>, color: u32)
    ensures
        block_views(final(blocks)@) == recolored(block_views(old(blocks)@), color),
{
    let ghost start = block_views(blocks@);
    let mut i: usize = 0;
    while i < blocks.len()
        invariant
            i <= blocks.len(),
            start.len() == blocks@.len(),
            forall|j: int| 0 <= j < i ==> #[trigger] block_views(blocks@)[j] == (BlockView { color: Some(color), ..start[j] }),
            forall|j: int| i <= j < blocks@.len() ==> #[trigger] block_views(blocks@)[j] == start[j],
        decreases blocks.len() - i,
    {
        let ghost prev = block_views(blocks@);
        assert(prev[i as int] == blocks@[i as int]@);
        assert(prev[i as int] == start[i as int]);
        let mut b = blocks[i].duplicate();
        b.color = Some(color);
        let ghost bv = b@;
        assert(bv == (BlockView { color: Some(color), ..start[i as int] }));
        blocks[i] = b;
        assert(block_views(blocks@) =~= prev.update(i as int, bv));
        i = i + 1;
    }
    assert(block_views(blocks@) =~= recolored(start, color));
}

} // verus!
