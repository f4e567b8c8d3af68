//! Packing of rendered text into the platform's size-limited content blocks.
use vstd::prelude::*;
use crate::token::string_views;
use twilight_model::channel::message::embed::{Embed, EmbedAuthor, EmbedField, EmbedFooter};

verus! {

/// One named field of a content block.
pub struct BlockField {
    pub name: String,
    pub value: String,
    pub inline: bool,
}

/// One content block: the platform's rich display unit.
pub struct Block {
    pub title: Option<String>,
    pub description: Option<String>,
    pub color: Option<u32>,
    pub fields: Vec<BlockField>,
    pub author: Option<String>,
    pub author_icon: Option<String>,
    pub footer: Option<String>,
    pub footer_icon: Option<String>,
    pub image: Option<String>,
}

/// Origin metadata put on the first block once packing is done: who wrote the
/// content and the server it came from.
pub struct Attribution {
    pub author: String,
    pub author_icon: Option<String>,
    pub footer: String,
    pub footer_icon: Option<String>,
}

/// Why content could not be packed.
#[derive(Clone, Copy, Debug, PartialEq, Eq, Structural)]
pub enum PackError {
    /// A fragment fits neither in an existing block nor in a fresh one.
    ContentTooLarge,
}

pub ghost struct FieldView {
    pub name: Seq<char>,
    pub value: Seq<char>,
    pub inline: bool,
}

pub ghost struct BlockView {
    pub title: Option<Seq<char>>,
    pub description: Option<Seq<char>>,
    pub color: Option<u32>,
    pub fields: Seq<FieldView>,
    pub author: Option<Seq<char>>,
    pub author_icon: Option<Seq<char>>,
    pub footer: Option<Seq<char>>,
    pub footer_icon: Option<Seq<char>>,
    pub image: Option<Seq<char>>,
}

pub open spec fn opt_view(o: Option<String>) -> Option<Seq<char>> {
    match o {
        Some(s) => Some(s@),
        None => None,
    }
}

impl View for BlockField {
    type V = FieldView;

    open spec fn view(&self) -> FieldView {
        FieldView { name: self.name@, value: self.value@, inline: self.inline }
    }
}

impl View for Block {
    type V = BlockView;

    open spec fn view(&self) -> BlockView {
        BlockView {
            title: opt_view(self.title),
            description: opt_view(self.description),
            color: self.color,
            fields: self.fields@.map_values(|f: BlockField| f@),
            author: opt_view(self.author),
            author_icon: opt_view(self.author_icon),
            footer: opt_view(self.footer),
            footer_icon: opt_view(self.footer_icon),
            image: opt_view(self.image),
        }
    }
}

pub open spec fn block_views(bs: Seq<Block>) -> Seq<BlockView> {
    bs.map_values(|b: Block| b@)
}

pub open spec fn empty_block() -> BlockView {
    BlockView {
        title: None,
        description: None,
        color: None,
        fields: Seq::empty(),
        author: None,
        author_icon: None,
        footer: None,
        footer_icon: None,
        image: None,
    }
}

/// Number of bytes in the UTF-8 encoding of `s`.
pub open spec fn utf8_len(s: Seq<char>) -> nat
    decreases s.len(),
{
    if s.len() == 0 {
        0
    } else {
        let c = s[0] as u32;
        let w: nat = if c < 0x80 {
            1
        } else if c < 0x800 {
            2
        } else if c < 0x10000 {
            3
        } else {
            4
        };
        w + utf8_len(s.drop_first())
    }
}

pub open spec fn opt_utf8_len(o: Option<Seq<char>>) -> nat {
    match o {
        Some(s) => utf8_len(s),
        None => 0,
    }
}

pub open spec fn fields_utf8_len(fs: Seq<FieldView>) -> nat
    decreases fs.len(),
{
    if fs.len() == 0 {
        0
    } else {
        utf8_len(fs[0].name) + utf8_len(fs[0].value) + fields_utf8_len(fs.drop_first())
    }
}

/// At most `max` characters, where present.
pub open spec fn opt_fits(o: Option<Seq<char>>, max: nat) -> bool {
    match o {
        Some(s) => s.len() <= max,
        None => true,
    }
}

/// The platform's constraints on a block: a total of 6000 bytes over the text
/// parts, an RGB color, and per-part limits in characters.
pub open spec fn accepts(b: BlockView) -> bool {
    &&& opt_utf8_len(b.author) + opt_utf8_len(b.description) + opt_utf8_len(b.footer)
        + fields_utf8_len(b.fields) + opt_utf8_len(b.title) <= 6000
    &&& match b.color {
        Some(c) => c <= 0xff_ffff,
        None => true,
    }
    &&& opt_fits(b.description, 4096)
    &&& b.fields.len() <= 25
    &&& forall|i: int|
        0 <= i < b.fields.len() ==> #[trigger] b.fields[i].name.len() <= 256
            && b.fields[i].value.len() <= 1024
    &&& opt_fits(b.footer, 2048)
    &&& opt_fits(b.author, 256)
    &&& opt_fits(b.title, 256)
}

/// The block's body text, empty where it has none.
pub open spec fn body(b: BlockView) -> Seq<char> {
    match b.description {
        Some(d) => d,
        None => Seq::empty(),
    }
}

/// `b` with `frag` added at the end of its body.
pub open spec fn appended(b: BlockView, frag: Seq<char>) -> BlockView {
    BlockView { description: Some(body(b) + frag), ..b }
}

pub open spec fn has_room(b: BlockView, frag: Seq<char>) -> bool {
    accepts(appended(b, frag))
}

/// Index of the first block with room for `frag`, or -1.
pub open spec fn first_room(bs: Seq<BlockView>, frag: Seq<char>) -> int
    decreases bs.len(),
{
    if bs.len() == 0 {
        -1
    } else if has_room(bs[0], frag) {
        0
    } else {
        let r = first_room(bs.drop_first(), frag);
        if r < 0 { -1 } else { r + 1 }
    }
}

/// Packing one fragment: into the first block with room, else into a fresh
/// block appended at the end, else an error.
pub open spec fn pack_fragment_spec(bs: Seq<BlockView>, frag: Seq<char>) -> Result<
    Seq<BlockView>,
    PackError,
> {
    let i = first_room(bs, frag);
    if i >= 0 {
        Ok(bs.update(i, appended(bs[i], frag)))
    } else if has_room(empty_block(), frag) {
        Ok(bs.push(appended(empty_block(), frag)))
    } else {
        Err(PackError::ContentTooLarge)
    }
}

/// Packing the fragments one after another, in order.
pub open spec fn pack_all(bs: Seq<BlockView>, frags: Seq<Seq<char>>) -> Result<
    Seq<BlockView>,
    PackError,
>
    decreases frags.len(),
{
    if frags.len() == 0 {
        Ok(bs)
    } else {
        match pack_fragment_spec(bs, frags[0]) {
            Ok(next) => pack_all(next, frags.drop_first()),
            Err(e) => Err(e),
        }
    }
}

pub open spec fn attribution_view(a: Attribution) -> (Seq<char>, Option<Seq<char>>, Seq<char>, Option<Seq<char>>) {
    (a.author@, opt_view(a.author_icon), a.footer@, opt_view(a.footer_icon))
}

/// The blocks with the attribution put on the first one (an empty block is
/// made to carry it when there is none), replacing what it had.
pub open spec fn attributed(bs: Seq<BlockView>, a: Attribution) -> Seq<BlockView> {
    let base = if bs.len() == 0 { seq![empty_block()] } else { bs };
    let v = attribution_view(a);
    base.update(
        0,
        BlockView {
            author: Some(v.0),
            author_icon: v.1,
            footer: Some(v.2),
            footer_icon: v.3,
            ..base[0]
        },
    )
}

/// Every block within the platform's limits.
pub open spec fn all_accepted(bs: Seq<BlockView>) -> bool {
    forall|i: int| 0 <= i < bs.len() ==> accepts(#[trigger] bs[i])
}

/// Packing the fragments, then attributing the first block; the result is
/// refused unless every block is within the platform's limits, the
/// attributed first block included.
pub open spec fn pack_spec(bs: Seq<BlockView>, frags: Seq<Seq<char>>, a: Attribution) -> Result<
    Seq<BlockView>,
    PackError,
> {
    match pack_all(bs, frags) {
        Ok(v) => if all_accepted(attributed(v, a)) {
            Ok(attributed(v, a))
        } else {
            Err(PackError::ContentTooLarge)
        },
        Err(e) => Err(e),
    }
}

proof fn lemma_first_room(bs: Seq<BlockView>, frag: Seq<char>, i: int)
    requires
        0 <= i <= bs.len(),
        forall|j: int| 0 <= j < i ==> !has_room(#[trigger] bs[j], frag),
        i < bs.len() ==> has_room(bs[i], frag),
    ensures
        first_room(bs, frag) == if i == bs.len() { -1 } else { i },
    decreases i,
{
    if i > 0 {
        let t = bs.drop_first();
        assert forall|j: int| 0 <= j < i - 1 implies !has_room(#[trigger] t[j], frag) by {
            assert(t[j] == bs[j + 1]);
        }
        if i < bs.len() {
            assert(t[i - 1] == bs[i]);
        }
        assert(!has_room(bs[0], frag));
        lemma_first_room(t, frag, i - 1);
    }
}

/// A fragment that fits in the first block goes there, and no other block changes.
pub proof fn lemma_fits_first(bs: Seq<BlockView>, frag: Seq<char>)
    requires
        bs.len() > 0,
        has_room(bs[0], frag),
    ensures
        pack_fragment_spec(bs, frag) == Ok::<Seq<BlockView>, PackError>(
            bs.update(0, appended(bs[0], frag)),
        ),
        forall|j: int| 1 <= j < bs.len() ==> #[trigger] bs.update(0, appended(bs[0], frag))[j] == bs[j],
{
}

/// A fragment with room in no block, and too large for a fresh one, is an error.
pub proof fn lemma_too_large(bs: Seq<BlockView>, frag: Seq<char>)
    requires
        forall|j: int| 0 <= j < bs.len() ==> !has_room(#[trigger] bs[j], frag),
        !has_room(empty_block(), frag),
    ensures
        pack_fragment_spec(bs, frag) == Err::<Seq<BlockView>, PackError>(PackError::ContentTooLarge),
{
    lemma_first_room(bs, frag, bs.len() as int);
}

/// Whatever the blocks, the attribution ends up on the first block and on no
/// other: the others are left as they were.
pub proof fn lemma_attribution_on_first(bs: Seq<BlockView>, a: Attribution)
    ensures
        attributed(bs, a).len() == if bs.len() == 0 { 1 } else { bs.len() },
        attributed(bs, a)[0].author == Some(a.author@),
        attributed(bs, a)[0].footer == Some(a.footer@),
        attributed(bs, a)[0].author_icon == opt_view(a.author_icon),
        attributed(bs, a)[0].footer_icon == opt_view(a.footer_icon),
        forall|j: int| 1 <= j < bs.len() ==> #[trigger] attributed(bs, a)[j] == bs[j],
{
}

/// Relies on twilight_validate::embed::embed, the platform's own check of a
/// block's limits; the icons and the image take no part in it.
#[verifier::external_body]
fn platform_accepts(b: &Block) -> (r: bool)
    ensures
        r == accepts(b@),
{
    let fields = b.fields.iter().map(|f| EmbedField { inline: f.inline, name: f.name.clone(), value: f.value.clone() });
    let e = Embed {
        author: b.author.clone().map(|name| EmbedAuthor { icon_url: None, name, proxy_icon_url: None, url: None }),
        color: b.color, description: b.description.clone(), fields: fields.collect(),
        footer: b.footer.clone().map(|text| EmbedFooter { icon_url: None, proxy_icon_url: None, text }),
        image: None, kind: String::new(), provider: None, thumbnail: None,
        timestamp: None, title: b.title.clone(), url: None, video: None,
    };
    twilight_validate::embed::embed(&e).is_ok()
}

fn copy_opt(o: &Option<String>) -> (r: Option<String>)
    ensures
        r == *o,
{
    match o {
        Some(s) => Some(s.clone()),
        None => None,
    }
}

impl BlockField {
    pub fn duplicate(&self) -> (r: BlockField)
        ensures
            r@ == self@,
    {
        BlockField { name: self.name.clone(), value: self.value.clone(), inline: self.inline }
    }
}

impl Block {
    /// A block with nothing in it.
    pub fn new() -> (r: Block)
        ensures
            r@ == empty_block(),
    {
        let r = Block {
            title: None,
            description: None,
            color: None,
            fields: Vec::new(),
            author: None,
            author_icon: None,
            footer: None,
            footer_icon: None,
            image: None,
        };
        assert(r@.fields =~= Seq::<FieldView>::empty());
        r
    }

    pub fn duplicate(&self) -> (r: Block)
        ensures
            r@ == self@,
    {
        let mut fields: Vec<BlockField> = Vec::new();
        let mut i: usize = 0;
        while i < self.fields.len()
            invariant
                i <= self.fields.len(),
                fields@.len() == i,
                forall|j: int| 0 <= j < i ==> #[trigger] fields@[j]@ == self.fields@[j]@,
            decreases self.fields.len() - i,
        {
            fields.push(self.fields[i].duplicate());
            i = i + 1;
        }
        let r = Block {
            title: copy_opt(&self.title),
            description: copy_opt(&self.description),
            color: self.color,
            fields,
            author: copy_opt(&self.author),
            author_icon: copy_opt(&self.author_icon),
            footer: copy_opt(&self.footer),
            footer_icon: copy_opt(&self.footer_icon),
            image: copy_opt(&self.image),
        };
        assert(r@.fields =~= self@.fields);
        r
    }

    /// Whether the platform accepts this block as it stands.
    pub fn is_valid(&self) -> (r: bool)
        ensures
            r == accepts(self@),
    {
        platform_accepts(self)
    }

    /// This block with `frag` added at the end of its body.
    pub fn appended(&self, frag: &str) -> (r: Block)
        ensures
            r@ == appended(self@, frag@),
    {
        let mut text = match &self.description {
            Some(d) => d.clone(),
            None => String::new(),
        };
        text.append(frag);
        let mut r = self.duplicate();
        r.description = Some(text);
        r
    }
}

/// Packs `frag` into the first block with room for it, or else into a fresh
/// block at the end. Nothing is cut: when neither fits, the blocks are left
/// unchanged and the result is an error.
pub fn pack_fragment(blocks: &mut Vec<Block>, frag: &str) -> (r: Result<(), PackError>)
    ensures
        match pack_fragment_spec(block_views(old(blocks)@), frag@) {
            Ok(v) => r is Ok && block_views(final(blocks)@) == v,
            Err(e) => r == Err::<(), PackError>(e) && final(blocks)@ == old(blocks)@,
        },
{
    let ghost bs = block_views(blocks@);
    let mut i: usize = 0;
    while i < blocks.len()
        invariant
            bs == block_views(blocks@),
            blocks@ == old(blocks)@,
            i <= blocks.len(),
            forall|j: int| 0 <= j < i ==> !has_room(#[trigger] bs[j], frag@),
        decreases blocks.len() - i,
    {
        let candidate = blocks[i].appended(frag);
        assert(bs[i as int] == blocks@[i as int]@);
        if candidate.is_valid() {
            proof {
                lemma_first_room(bs, frag@, i as int);
            }
            blocks[i] = candidate;
            assert(block_views(blocks@) =~= bs.update(i as int, appended(bs[i as int], frag@)));
            return Ok(());
        }
        i = i + 1;
    }
    proof {
        lemma_first_room(bs, frag@, i as int);
    }
    assert(first_room(bs, frag@) == -1);
    let fresh = Block::new().appended(frag);
    if fresh.is_valid() {
        blocks.push(fresh);
        assert(block_views(blocks@) =~= bs.push(appended(empty_block(), frag@)));
        Ok(())
    } else {
        assert(!has_room(empty_block(), frag@));
        Err(PackError::ContentTooLarge)
    }
}

/// Puts the attribution on the first block, replacing what it had there; an
/// empty block is added to carry it when there are no blocks.
pub fn attribute(blocks: &mut Vec<Block>, a: &Attribution)
    ensures
        block_views(final(blocks)@) == attributed(block_views(old(blocks)@), *a),
{
    if blocks.len() == 0 {
        blocks.push(Block::new());
        assert(block_views(blocks@) =~= seq![empty_block()]);
    }
    let ghost base = block_views(blocks@);
    let mut first = blocks[0].duplicate();
    first.author = Some(a.author.clone());
    first.author_icon = copy_opt(&a.author_icon);
    first.footer = Some(a.footer.clone());
    first.footer_icon = copy_opt(&a.footer_icon);
    blocks[0] = first;
    assert(block_views(blocks@) =~= attributed(block_views(old(blocks)@), *a));
}

/// Whether the platform accepts every block.
pub fn all_valid(blocks: &Vec<Block>) -> (r: bool)
    ensures
        r == all_accepted(block_views(blocks@)),
{
    let mut i: usize = 0;
    while i < blocks.len()
        invariant
            i <= blocks.len(),
            forall|j: int| 0 <= j < i ==> accepts(#[trigger] block_views(blocks@)[j]),
        decreases blocks.len() - i,
    {
        if !blocks[i].is_valid() {
            assert(!accepts(block_views(blocks@)[i as int]));
            return false;
        }
        i = i + 1;
    }
    true
}

/// Packs each fragment in turn, then attributes the first block; fails
/// unless every resulting block is within the platform's limits.
pub fn pack(blocks: Vec<Block>, frags: &Vec<String>, a: &Attribution) -> (r: Result<
    Vec<Block>,
    PackError,
>)
    ensures
        match pack_spec(block_views(blocks@), string_views(frags@), *a) {
            Ok(v) => r is Ok && block_views(r->Ok_0@) == v,
            Err(e) => r == Err::<Vec<Block>, PackError>(e),
        },
        r is Ok ==> forall|i: int|
            0 <= i < block_views(r->Ok_0@).len() ==> accepts(#[trigger] block_views(r->Ok_0@)[i]),
{
    let ghost fs = string_views(frags@);
    let ghost start = block_views(blocks@);
    let mut work = blocks;
    let mut k: usize = 0;
    assert(fs.subrange(0, fs.len() as int) =~= fs);
    while k < frags.len()
        invariant
            fs == string_views(frags@),
            k <= frags.len(),
            start == block_views(blocks@),
            pack_all(start, fs) == pack_all(block_views(work@), fs.subrange(k as int, fs.len() as int)),
        decreases frags.len() - k,
    {
        let ghost before = block_views(work@);
        assert(fs[k as int] == frags@[k as int]@);
        let step = pack_fragment(&mut work, frags[k].as_str());
        let ghost rest = fs.subrange(k as int, fs.len() as int);
        assert(rest.drop_first() =~= fs.subrange(k + 1, fs.len() as int));
        assert(rest[0] == fs[k as int]);
        assert(pack_all(before, rest) == match pack_fragment_spec(before, rest[0]) {
            Ok(next) => pack_all(next, rest.drop_first()),
            Err(e) => Err(e),
        });
        if step.is_err() {
            assert(pack_fragment_spec(before, fs[k as int]) is Err);
            return Err(PackError::ContentTooLarge);
        }
        k = k + 1;
    }
    assert(fs.subrange(k as int, fs.len() as int) =~= Seq::<Seq<char>>::empty());
    attribute(&mut work, a);
    if !all_valid(&work) {
        return Err(PackError::ContentTooLarge);
    }
    Ok(work)
}

/// One attachment as a link: `[name](url)`.
pub open spec fn attachment_link(name: Seq<char>, url: Seq<char>) -> Seq<char> {
    "["@ + name + "]("@ + url + ")"@
}

/// The attachment links, one per quoted line.
pub open spec fn attachment_lines(items: Seq<(Seq<char>, Seq<char>)>) -> Seq<char>
    decreases items.len(),
{
    if items.len() == 0 {
        Seq::empty()
    } else if items.len() == 1 {
        attachment_link(items[0].0, items[0].1)
    } else {
        attachment_lines(items.drop_last()) + "\n> "@ + attachment_link(items.last().0, items.last().1)
    }
}

/// The note listing a message's attachments, added to the bookmark's body;
/// empty when there are none.
pub open spec fn attachments_note_spec(items: Seq<(Seq<char>, Seq<char>)>) -> Seq<char> {
    if items.len() == 0 {
        Seq::empty()
    } else {
        "\n**Attachments:**\n> "@ + attachment_lines(items)
    }
}

pub open spec fn pair_views(items: Seq<(String, String)>) -> Seq<(Seq<char>, Seq<char>)> {
    items.map_values(|p: (String, String)| (p.0@, p.1@))
}

/// Builds the note listing attachments given as (file name, url) pairs.
pub fn attachments_note(items: &Vec<(String, String)>) -> (r: String)
    ensures
        r@ == attachments_note_spec(pair_views(items@)),
{
    let ghost v = pair_views(items@);
    if items.len() == 0 {
        return String::new();
    }
    let mut lines = String::new();
    let mut i: usize = 0;
    while i < items.len()
        invariant
            v == pair_views(items@),
            i <= items.len(),
            lines@ == attachment_lines(v.take(i as int)),
        decreases items.len() - i,
    {
        if i > 0 {
            lines.append("\n> ");
        }
        lines.append("[");
        lines.append(items[i].0.as_str());
        lines.append("](");
        lines.append(items[i].1.as_str());
        lines.append(")");
        proof {
            let t = v.take(i + 1);
            assert(t.drop_last() =~= v.take(i as int));
            assert(t.last() == v[i as int]);
            if i == 0 {
                assert(v.take(0) =~= Seq::<(Seq<char>, Seq<char>)>::empty());
            }
        }
        assert(lines@ =~= attachment_lines(v.take(i + 1)));
        i = i + 1;
    }
    assert(v.take(i as int) =~= v);
    let mut note = String::from_str("\n**Attachments:**\n> ");
    note.append(lines.as_str());
    note
}

/// The blocks of a bookmark: the message's text as a first block (when it has
/// any) before its own blocks, the attachment note packed in, and the
/// attribution on the first block.
pub fn bookmark_blocks(
    content: &str,
    blocks: Vec<Block>,
    attachments: &Vec<(String, String)>,
    a: &Attribution,
) -> (r: Result<Vec<Block>, PackError>)
    ensures
        ({
            let base = if content@.len() == 0 {
                block_views(blocks@)
            } else {
                seq![appended(empty_block(), content@)] + block_views(blocks@)
            };
            let frags = if attachments@.len() == 0 {
                Seq::<Seq<char>>::empty()
            } else {
                seq![attachments_note_spec(pair_views(attachments@))]
            };
            match pack_spec(base, frags, *a) {
                Ok(v) => r is Ok && block_views(r->Ok_0@) == v,
                Err(e) => r == Err::<Vec<Block>, PackError>(e),
            }
        }),
        r is Ok ==> forall|i: int|
            0 <= i < block_views(r->Ok_0@).len() ==> accepts(#[trigger] block_views(r->Ok_0@)[i]),
{
    let mut all = blocks;
    let ghost orig = block_views(all@);
    if content.unicode_len() > 0 {
        let first = Block::new().appended(content);
        all.insert(0, first);
        assert(block_views(all@) =~= seq![appended(empty_block(), content@)] + orig);
    }
    let mut frags: Vec<String> = Vec::new();
    if attachments.len() > 0 {
        frags.push(attachments_note(attachments));
    }
    assert(string_views(frags@) =~= if attachments@.len() == 0 {
        Seq::<Seq<char>>::empty()
    } else {
        seq![attachments_note_spec(pair_views(attachments@))]
    });
    pack(all, &frags, a)
}

} // verus!
