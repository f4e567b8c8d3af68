use bookmarker::packer::{
    attachments_note, attribute, bookmark_blocks, pack, pack_fragment, Attribution, Block, BlockField,
    PackError,
};

fn block(desc: &str) -> Block {
    let mut b = Block::new();
    b.description = Some(desc.to_string());
    b
}

fn attribution() -> Attribution {
    Attribution {
        author: "alice".to_string(),
        author_icon: Some("https://cdn.example/a.png".to_string()),
        footer: "Server (42)".to_string(),
        footer_icon: None,
    }
}

#[test]
fn empty_block_is_valid() {
    assert!(Block::new().is_valid());
}

#[test]
fn description_limit_is_checked() {
    assert!(block(&"d".repeat(4096)).is_valid());
    assert!(!block(&"d".repeat(4097)).is_valid());
}

#[test]
fn title_and_color_limits_are_checked() {
    let mut b = Block::new();
    b.title = Some("t".repeat(257));
    assert!(!b.is_valid());
    let mut c = Block::new();
    c.color = Some(0x100_0000);
    assert!(!c.is_valid());
    c.color = Some(0xff_ffff);
    assert!(c.is_valid());
}

#[test]
fn total_length_counts_bytes() {
    let mut b = block(&"é".repeat(2000));
    b.fields.push(BlockField { name: "n".to_string(), value: "v".repeat(1000), inline: false });
    b.fields.push(BlockField { name: "m".to_string(), value: "v".repeat(1000), inline: true });
    // 4000 + 2 + 2000 bytes
    assert!(!b.is_valid());
}

#[test]
fn fragment_fits_first_block() {
    let mut blocks = vec![block("one"), block("two")];
    pack_fragment(&mut blocks, "+note").unwrap();
    assert_eq!(blocks.len(), 2);
    assert_eq!(blocks[0].description.as_deref(), Some("one+note"));
    assert_eq!(blocks[1].description.as_deref(), Some("two"));
}

#[test]
fn fragment_goes_to_first_block_with_room() {
    let mut blocks = vec![block(&"x".repeat(4090)), block("two")];
    pack_fragment(&mut blocks, "0123456789").unwrap();
    assert_eq!(blocks[0].description.as_ref().unwrap().len(), 4090);
    assert_eq!(blocks[1].description.as_deref(), Some("two0123456789"));
}

#[test]
fn fragment_goes_to_fresh_block() {
    let mut blocks = vec![block(&"x".repeat(4090))];
    pack_fragment(&mut blocks, "0123456789").unwrap();
    assert_eq!(blocks.len(), 2);
    assert_eq!(blocks[1].description.as_deref(), Some("0123456789"));
    assert!(blocks[1].title.is_none());
}

#[test]
fn fragment_into_no_blocks() {
    let mut blocks: Vec<Block> = Vec::new();
    pack_fragment(&mut blocks, "note").unwrap();
    assert_eq!(blocks.len(), 1);
    assert_eq!(blocks[0].description.as_deref(), Some("note"));
}

#[test]
fn fragment_too_large_is_an_error() {
    let mut blocks = vec![block("one")];
    let r = pack_fragment(&mut blocks, &"y".repeat(5000));
    assert_eq!(r, Err(PackError::ContentTooLarge));
    assert_eq!(blocks.len(), 1);
    assert_eq!(blocks[0].description.as_deref(), Some("one"));
}

#[test]
fn attribution_goes_on_first_block_only() {
    let mut first = block("one");
    first.author = Some("old author".to_string());
    let mut second = block("two");
    second.author = Some("kept".to_string());
    let mut blocks = vec![first, second];
    attribute(&mut blocks, &attribution());
    assert_eq!(blocks[0].author.as_deref(), Some("alice"));
    assert_eq!(blocks[0].footer.as_deref(), Some("Server (42)"));
    assert_eq!(blocks[0].author_icon.as_deref(), Some("https://cdn.example/a.png"));
    assert_eq!(blocks[1].author.as_deref(), Some("kept"));
    assert!(blocks[1].footer.is_none());
}

#[test]
fn attribution_on_no_blocks_makes_one() {
    let mut blocks: Vec<Block> = Vec::new();
    attribute(&mut blocks, &attribution());
    assert_eq!(blocks.len(), 1);
    assert_eq!(blocks[0].author.as_deref(), Some("alice"));
    assert!(blocks[0].description.is_none());
}

#[test]
fn pack_fragments_in_order_then_attributes() {
    let frags = vec!["-a".to_string(), "-b".to_string()];
    let out = pack(vec![block("x")], &frags, &attribution()).unwrap();
    assert_eq!(out.len(), 1);
    assert_eq!(out[0].description.as_deref(), Some("x-a-b"));
    assert_eq!(out[0].author.as_deref(), Some("alice"));
}

#[test]
fn pack_reports_oversized_fragment() {
    let frags = vec!["ok".to_string(), "z".repeat(4097)];
    let r = pack(vec![block("x")], &frags, &attribution());
    assert!(matches!(r, Err(PackError::ContentTooLarge)));
}

#[test]
fn attachments_note_lists_links() {
    let items = vec![
        ("a.png".to_string(), "https://cdn/a.png".to_string()),
        ("b.txt".to_string(), "https://cdn/b.txt".to_string()),
    ];
    assert_eq!(
        attachments_note(&items),
        "\n**Attachments:**\n> [a.png](https://cdn/a.png)\n> [b.txt](https://cdn/b.txt)"
    );
    assert_eq!(attachments_note(&Vec::new()), "");
}

#[test]
fn bookmark_puts_content_first_and_note_in() {
    let items = vec![("a.png".to_string(), "u".to_string())];
    let out = bookmark_blocks("hello", vec![block("embed")], &items, &attribution()).unwrap();
    assert_eq!(out.len(), 2);
    assert_eq!(out[0].description.as_deref(), Some("hello\n**Attachments:**\n> [a.png](u)"));
    assert_eq!(out[1].description.as_deref(), Some("embed"));
    assert_eq!(out[0].author.as_deref(), Some("alice"));
    assert!(out[1].author.is_none());
}

#[test]
fn bookmark_of_empty_message_has_one_block() {
    let out = bookmark_blocks("", Vec::new(), &Vec::new(), &attribution()).unwrap();
    assert_eq!(out.len(), 1);
    assert!(out[0].description.is_none());
    assert_eq!(out[0].footer.as_deref(), Some("Server (42)"));
}

#[test]
fn attribution_that_breaks_limits_is_refused() {
    let mut a = attribution();
    a.author = "n".repeat(300);
    let frags = vec!["\n**Attachments:**\n> [a](b)".to_string()];
    assert_eq!(pack(Vec::new(), &frags, &a).err(), Some(PackError::ContentTooLarge));
}

#[test]
fn attribution_past_total_length_is_refused() {
    let mut a = attribution();
    a.author = "n".repeat(200);
    a.footer = "f".repeat(1000);
    let big = block(&"d".repeat(4096));
    let mut second = Block::new();
    second.title = Some("t".repeat(200));
    let mut first = big;
    first.fields.push(BlockField { name: "x".to_string(), value: "v".repeat(1000), inline: false });
    first.fields.push(BlockField { name: "y".to_string(), value: "v".repeat(500), inline: false });
    assert!(first.is_valid());
    assert_eq!(pack(vec![first, second], &Vec::new(), &a).err(), Some(PackError::ContentTooLarge));
}

#[test]
fn packed_blocks_are_all_valid() {
    let frags = vec!["y".repeat(3000), "z".repeat(3000)];
    let out = pack(vec![block(&"x".repeat(2000))], &frags, &attribution()).unwrap();
    // neither fragment fits beside 2000 or 3000 characters under the 4096 limit
    assert_eq!(out.len(), 3);
    assert_eq!(out[2].description.as_deref(), Some("z".repeat(3000).as_str()));
    assert!(out.iter().all(|b| b.is_valid()));
}

#[test]
fn bookmark_text_over_limit_is_refused() {
    let r = bookmark_blocks(&"c".repeat(4097), Vec::new(), &Vec::new(), &attribution());
    assert_eq!(r.err(), Some(PackError::ContentTooLarge));
}
