//! The buttons the bot attaches to its messages, and the color picker whose
//! identifiers carry the bookmark's location as action tokens.
use vstd::prelude::*;
use crate::color::picker_token;
use crate::packer::opt_view;
use crate::token::{encode_spec, TokenError};

verus! {

#[derive(Clone, Copy, Debug, PartialEq, Eq, Structural)]
pub enum Style {
    Primary,
    Secondary,
    Link,
}

pub enum Emoji {
    Unicode(String),
    /// A custom emoji of the platform, by id and name.
    Custom { id: u64, name: String },
}

pub struct ButtonModel {
    pub custom_id: Option<String>,
    pub label: Option<String>,
    pub emoji: Emoji,
    pub style: Style,
    pub url: Option<String>,
    pub disabled: bool,
}

pub ghost enum EmojiView {
    Unicode(Seq<char>),
    Custom(u64, Seq<char>),
}

pub ghost struct ButtonView {
    pub custom_id: Option<Seq<char>>,
    pub label: Option<Seq<char>>,
    pub emoji: EmojiView,
    pub style: Style,
    pub url: Option<Seq<char>>,
    pub disabled: bool,
}

impl View for ButtonModel {
    type V = ButtonView;

    open spec fn view(&self) -> ButtonView {
        ButtonView {
            custom_id: opt_view(self.custom_id),
            label: opt_view(self.label),
            emoji: match self.emoji {
                Emoji::Unicode(s) => EmojiView::Unicode(s@),
                Emoji::Custom { id, name } => EmojiView::Custom(id, name@),
            },
            style: self.style,
            url: opt_view(self.url),
            disabled: self.disabled,
        }
    }
}

pub open spec fn button_views(bs: Seq<ButtonModel>) -> Seq<ButtonView> {
    bs.map_values(|b: ButtonModel| b@)
}

pub open spec fn plain(
    custom_id: Option<Seq<char>>,
    label: Option<Seq<char>>,
    emoji: EmojiView,
    style: Style,
    url: Option<Seq<char>>,
) -> ButtonView {
    ButtonView { custom_id, label, emoji, style, url, disabled: false }
}

/// A bookmark's buttons: change its color, delete it, jump to the original.
pub open spec fn default_buttons_spec(jump_url: Seq<char>) -> Seq<ButtonView> {
    seq![
        plain(Some("color"@), None, EmojiView::Unicode("🎨"@), Style::Secondary, None),
        plain(Some("delete"@), None, EmojiView::Unicode("❌"@), Style::Secondary, None),
        plain(None, None, EmojiView::Unicode("🔗"@), Style::Link, Some(jump_url)),
    ]
}

/// The picker's color choices: the color number and its emoji.
pub open spec fn swatches() -> Seq<(Seq<char>, u64, Seq<char>)> {
    seq![
        ("5793266"@, 1184416010254684201u64, "bk_blurple"@),
        ("15548997"@, 1184416103464714300u64, "bk_red"@),
        ("5763719"@, 1184416108351070250u64, "bk_green"@),
        ("16705372"@, 1184416111316435045u64, "bk_yellow"@),
        ("15418782"@, 1184416105251471480u64, "bk_fucahsia"@),
    ]
}

/// The picker's verbs, swatches first, then refresh and repost.
pub open spec fn picker_verbs() -> Seq<Seq<char>> {
    seq![
        swatches()[0].0,
        swatches()[1].0,
        swatches()[2].0,
        swatches()[3].0,
        swatches()[4].0,
        "update"@,
        "repost"@,
    ]
}

pub open spec fn picker_id(verb: Seq<char>, path: Seq<char>) -> Result<Seq<char>, TokenError> {
    encode_spec("color"@, seq![verb, path])
}

/// The picker for the bookmark of the message at `path`: a row of color
/// swatches, then a row with refresh and repost.
pub open spec fn picker_spec(path: Seq<char>) -> Result<(Seq<ButtonView>, Seq<ButtonView>), TokenError> {
    if exists|i: int| 0 <= i < 7 && picker_id(#[trigger] picker_verbs()[i], path) is Err {
        let i = choose|i: int| 0 <= i < 7 && picker_id(#[trigger] picker_verbs()[i], path) is Err;
        Err(picker_id(picker_verbs()[i], path)->Err_0)
    } else {
        Ok(
            (
                Seq::new(
                    5,
                    |i: int|
                        plain(
                            Some(picker_id(swatches()[i].0, path)->Ok_0),
                            None,
                            EmojiView::Custom(swatches()[i].1, swatches()[i].2),
                            Style::Secondary,
                            None,
                        ),
                ),
                seq![
                    plain(
                        Some(picker_id("update"@, path)->Ok_0),
                        Some("Refresh Data"@),
                        EmojiView::Unicode("🔃"@),
                        Style::Primary,
                        None,
                    ),
                    plain(
                        Some(picker_id("repost"@, path)->Ok_0),
                        Some("Repost Bookmark"@),
                        EmojiView::Unicode("📑"@),
                        Style::Primary,
                        None,
                    ),
                ],
            ),
        )
    }
}

fn button(
    custom_id: Option<String>,
    label: Option<&str>,
    emoji: Emoji,
    style: Style,
    url: Option<String>,
) -> (r: ButtonModel)
    ensures
        r@.custom_id == opt_view(custom_id),
        r@.label == match label {
            Some(l) => Some(l@),
            None => None::<Seq<char>>,
        },
        r.emoji == emoji,
        r.style == style,
        r@.url == opt_view(url),
        !r.disabled,
{
    let label = match label {
        Some(l) => Some(String::from_str(l)),
        None => None,
    };
    ButtonModel { custom_id, label, emoji, style, url, disabled: false }
}

/// The buttons put under every bookmark.
pub fn default_buttons(jump_url: &str) -> (r: Vec<ButtonModel>)
    ensures
        button_views(r@) == default_buttons_spec(jump_url@),
{
    let color = button(
        Some(String::from_str("color")),
        None,
        Emoji::Unicode(String::from_str("🎨")),
        Style::Secondary,
        None,
    );
    let delete = button(
        Some(String::from_str("delete")),
        None,
        Emoji::Unicode(String::from_str("❌")),
        Style::Secondary,
        None,
    );
    let jump = button(
        None,
        None,
        Emoji::Unicode(String::from_str("🔗")),
        Style::Link,
        Some(String::from_str(jump_url)),
    );
    let r = vec![color, delete, jump];
    assert(button_views(r@) =~= default_buttons_spec(jump_url@));
    r
}

/// The single disabled button that confirms a bookmark was sent.
pub fn bookmarked_button() -> (r: ButtonModel)
    ensures
        r@ == (ButtonView {
            custom_id: Some("bookmark"@),
            label: Some("Bookmarked"@),
            emoji: EmojiView::Unicode("🔖"@),
            style: Style::Primary,
            url: None,
            disabled: true,
        }),
{
    let mut b = button(
        Some(String::from_str("bookmark")),
        Some("Bookmarked"),
        Emoji::Unicode(String::from_str("🔖")),
        Style::Primary,
        None,
    );
    b.disabled = true;
    b
}

/// The picker for the bookmark of the message at `path`.
pub fn picker_buttons(path: &str) -> (r: Result<(Vec<ButtonModel>, Vec<ButtonModel>), TokenError>)
    ensures
        match r {
            Ok((sw, act)) => picker_spec(path@) == Ok::<
                (Seq<ButtonView>, Seq<ButtonView>),
                TokenError,
            >((button_views(sw@), button_views(act@))),
            Err(e) => exists|i: int|
                0 <= i < 7 && picker_id(#[trigger] picker_verbs()[i], path@) == Err::<
                    Seq<char>,
                    TokenError,
                >(e),
        },
{
    let verbs = ["5793266", "15548997", "5763719", "16705372", "15418782"];
    let ids: [u64; 5] = [
        1184416010254684201,
        1184416103464714300,
        1184416108351070250,
        1184416111316435045,
        1184416105251471480,
    ];
    let names = ["bk_blurple", "bk_red", "bk_green", "bk_yellow", "bk_fucahsia"];
    assert(verbs@ =~= seq!["5793266", "15548997", "5763719", "16705372", "15418782"]);
    assert(names@ =~= seq!["bk_blurple", "bk_red", "bk_green", "bk_yellow", "bk_fucahsia"]);
    let mut sw: Vec<ButtonModel> = Vec::new();
    let mut i: usize = 0;
    while i < 5
        invariant
            i <= 5,
            sw@.len() == i,
            verbs@ == seq!["5793266", "15548997", "5763719", "16705372", "15418782"],
            names@ == seq!["bk_blurple", "bk_red", "bk_green", "bk_yellow", "bk_fucahsia"],
            ids@ == seq![
                1184416010254684201u64,
                1184416103464714300u64,
                1184416108351070250u64,
                1184416111316435045u64,
                1184416105251471480u64,
            ],
            forall|j: int|
                0 <= j < i ==> picker_id(#[trigger] picker_verbs()[j], path@) is Ok && sw@[j]@
                    == plain(
                    Some(picker_id(swatches()[j].0, path@)->Ok_0),
                    None,
                    EmojiView::Custom(swatches()[j].1, swatches()[j].2),
                    Style::Secondary,
                    None,
                ),
        decreases 5 - i,
    {
        assert(verbs@[i as int]@ == picker_verbs()[i as int]);
        assert(verbs@[i as int]@ == swatches()[i as int].0);
        assert(names@[i as int]@ == swatches()[i as int].2);
        assert(ids@[i as int] == swatches()[i as int].1);
        let t = picker_token(verbs[i], path)?;
        let b = button(
            Some(t),
            None,
            Emoji::Custom { id: ids[i], name: String::from_str(names[i]) },
            Style::Secondary,
            None,
        );
        sw.push(b);
        i = i + 1;
    }
    assert(picker_verbs()[5] == "update"@);
    assert(picker_verbs()[6] == "repost"@);
    let refresh = picker_token("update", path)?;
    let repost = picker_token("repost", path)?;
    let act = vec![
        button(Some(refresh), Some("Refresh Data"), Emoji::Unicode(String::from_str("🔃")), Style::Primary, None),
        button(Some(repost), Some("Repost Bookmark"), Emoji::Unicode(String::from_str("📑")), Style::Primary, None),
    ];
    assert forall|j: int| 0 <= j < 7 implies picker_id(#[trigger] picker_verbs()[j], path@) is Ok by {}
    let ghost spec = picker_spec(path@);
    assert(button_views(sw@) =~= spec->Ok_0.0);
    assert(button_views(act@) =~= spec->Ok_0.1);
    Ok((sw, act))
}

} // verus!
