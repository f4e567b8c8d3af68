use bookmarker::buttons::{bookmarked_button, default_buttons, picker_buttons, Emoji, Style};
use bookmarker::color::{color_request, ColorAction};
use bookmarker::token::TokenError;

#[test]
fn default_buttons_link_to_original() {
    let b = default_buttons("https://discord.com/channels/1/2/3");
    assert_eq!(b.len(), 3);
    assert_eq!(b[0].custom_id.as_deref(), Some("color"));
    assert_eq!(b[1].custom_id.as_deref(), Some("delete"));
    assert!(b[2].custom_id.is_none());
    assert_eq!(b[2].style, Style::Link);
    assert_eq!(b[2].url.as_deref(), Some("https://discord.com/channels/1/2/3"));
    assert!(matches!(&b[0].emoji, Emoji::Unicode(e) if e == "🎨"));
}

#[test]
fn bookmarked_button_is_disabled() {
    let b = bookmarked_button();
    assert!(b.disabled);
    assert_eq!(b.label.as_deref(), Some("Bookmarked"));
    assert_eq!(b.style, Style::Primary);
}

#[test]
fn picker_carries_path_in_tokens() {
    let (sw, act) = picker_buttons("1/2/3").unwrap();
    assert_eq!(sw.len(), 5);
    assert_eq!(act.len(), 2);
    assert_eq!(sw[0].custom_id.as_deref(), Some("color:5793266:1/2/3"));
    assert_eq!(sw[4].custom_id.as_deref(), Some("color:15418782:1/2/3"));
    assert!(matches!(&sw[1].emoji, Emoji::Custom { id: 1184416103464714300, name } if name == "bk_red"));
    assert_eq!(act[0].custom_id.as_deref(), Some("color:update:1/2/3"));
    assert_eq!(act[1].label.as_deref(), Some("Repost Bookmark"));
    let again = color_request(act[1].custom_id.as_deref().unwrap()).unwrap();
    assert!(matches!(again.action, ColorAction::Repost { guild } if guild == "1"));
}

#[test]
fn picker_refuses_path_with_delimiter() {
    assert!(matches!(picker_buttons("1:2"), Err(TokenError::InvalidField)));
    let long = "9".repeat(90);
    assert!(matches!(picker_buttons(&long), Err(TokenError::TooLong)));
}
