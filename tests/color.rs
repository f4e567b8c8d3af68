use bookmarker::color::{
    color_request, jump_path, parse_u32, picker_token, recolor, reply_kind, ColorAction, ColorError,
};
use bookmarker::dispatch::ResponseKind;
use bookmarker::packer::Block;
use bookmarker::token::TokenError;

#[test]
fn plain_identifier_shows_picker() {
    let r = color_request("color").unwrap();
    assert!(matches!(r.action, ColorAction::ShowPicker));
    assert_eq!(r.path, "");
}

#[test]
fn color_number_recolors_and_keeps_path() {
    let r = color_request("color:5793266:1/2/3").unwrap();
    assert!(matches!(r.action, ColorAction::Recolor { color: 5793266 }));
    assert_eq!(r.path, "1/2/3");
}

#[test]
fn update_splits_message_path() {
    let r = color_request("color:update:10/20/30").unwrap();
    match r.action {
        ColorAction::Refresh { guild, channel, message } => {
            assert_eq!((guild.as_str(), channel.as_str(), message.as_str()), ("10", "20", "30"));
        }
        _ => panic!("expected a refresh"),
    }
}

#[test]
fn update_keeps_remainder_in_message() {
    let r = color_request("color:update:1/2/3/4").unwrap();
    match r.action {
        ColorAction::Refresh { message, .. } => assert_eq!(message, "3/4"),
        _ => panic!("expected a refresh"),
    }
}

#[test]
fn repost_takes_guild() {
    let r = color_request("color:repost:77/88/99").unwrap();
    match r.action {
        ColorAction::Repost { guild } => assert_eq!(guild, "77"),
        _ => panic!("expected a repost"),
    }
}

#[test]
fn color_errors() {
    assert!(matches!(color_request("color:update:1/2"), Err(ColorError::BadPath)));
    assert!(matches!(color_request("color:repost:12"), Err(ColorError::BadPath)));
    assert!(matches!(color_request("color:teal:1/2/3"), Err(ColorError::BadColor)));
    assert!(matches!(color_request("color:4294967296:1/2/3"), Err(ColorError::BadColor)));
    assert!(matches!(color_request("color:5"), Err(ColorError::Token(TokenError::MissingField))));
}

#[test]
fn parse_u32_bounds() {
    assert_eq!(parse_u32("0"), Some(0));
    assert_eq!(parse_u32("4294967295"), Some(u32::MAX));
    assert_eq!(parse_u32("00000000000000000042"), Some(42));
    assert_eq!(parse_u32("4294967296"), None);
    assert_eq!(parse_u32(""), None);
    assert_eq!(parse_u32("12a"), None);
}

#[test]
fn jump_path_strips_prefix() {
    assert_eq!(jump_path("https://discord.com/channels/1/2/3"), Some("1/2/3".to_string()));
    assert_eq!(jump_path("https://example.com/1/2/3"), None);
}

#[test]
fn picker_token_round_trips() {
    let t = picker_token("15548997", "1/2/3").unwrap();
    assert_eq!(t, "color:15548997:1/2/3");
    let r = color_request(&t).unwrap();
    assert!(matches!(r.action, ColorAction::Recolor { color: 15548997 }));
    assert_eq!(picker_token("update", "a:b"), Err(TokenError::InvalidField));
}

#[test]
fn repost_answers_with_new_message() {
    assert_eq!(reply_kind(&color_request("color:repost:1/2/3").unwrap().action), ResponseKind::ChannelMessageWithSource);
    assert_eq!(reply_kind(&color_request("color:5793266:1/2/3").unwrap().action), ResponseKind::UpdateMessage);
    assert_eq!(reply_kind(&color_request("color").unwrap().action), ResponseKind::UpdateMessage);
}

#[test]
fn recolor_sets_every_block() {
    let mut a = Block::new();
    a.title = Some("t".to_string());
    let mut blocks = vec![a, Block::new()];
    recolor(&mut blocks, 15548997);
    assert!(blocks.iter().all(|b| b.color == Some(15548997)));
    assert_eq!(blocks[0].title.as_deref(), Some("t"));
}
