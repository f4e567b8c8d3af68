//! Rewriting of links in bookmarked text so that the platform renders them:
//! markdown links are rebuilt from their text, bare URLs are wrapped.
use vstd::prelude::*;
use regex::Regex;
use crate::packer::{block_views, Block, BlockView};
use crate::token::string_views;

verus! {

/// What a markdown link looks like: `[text](target)`, shortest match.
pub const MARKDOWN_LINK: &'static str = r"\[.*?\]\(.*?\)";

/// What a bare URL looks like, captured as `url`.
pub const BARE_LINK: &'static str = r"(?P<url>https?://[^\s]+)";

/// What a bare URL becomes.
pub const WRAPPED_LINK: &'static str = "[${url}](${url})";

/// The matches of `pattern` in `s`, left to right, or none when the pattern
/// does not compile.
pub uninterp spec fn regex_matches(pattern: Seq<char>, s: Seq<char>) -> Option<Seq<Seq<char>>>;

/// `s` with every match of `pattern` replaced by `rep` (capture groups
/// expanded), or none when the pattern does not compile.
pub uninterp spec fn regex_replaced(pattern: Seq<char>, s: Seq<char>, rep: Seq<char>) -> Option<
    Seq<char>,
>;

/// Every occurrence of `from` in `s`, scanning left to right without overlap,
/// replaced by `to`.
pub open spec fn replace_all(s: Seq<char>, from: Seq<char>, to: Seq<char>) -> Seq<char>
    decreases s.len(),
{
    if from.len() == 0 || s.len() < from.len() {
        s
    } else if s.subrange(0, from.len() as int) == from {
        to + replace_all(s.subrange(from.len() as int, s.len() as int), from, to)
    } else {
        seq![s[0]] + replace_all(s.drop_first(), from, to)
    }
}

/// Each markdown link `m` (in order) replaced in the text by a link whose
/// text and target are both `m` without its first and last characters.
pub open spec fn markdown_rewrite(s: Seq<char>, ms: Seq<Seq<char>>) -> Seq<char>
    decreases ms.len(),
{
    if ms.len() == 0 {
        s
    } else {
        let prev = markdown_rewrite(s, ms.drop_last());
        let m = ms.last();
        if m.len() < 2 {
            prev
        } else {
            let inner = m.subrange(1, m.len() - 1);
            replace_all(prev, m, "["@ + inner + "]("@ + inner + ")"@)
        }
    }
}

/// The text with its links rewritten, or none when a pattern does not compile.
pub open spec fn linkified(s: Seq<char>) -> Option<Seq<char>> {
    match regex_matches(MARKDOWN_LINK@, s) {
        Some(ms) => regex_replaced(BARE_LINK@, markdown_rewrite(s, ms), WRAPPED_LINK@),
        None => None,
    }
}

/// Relies on regex's Regex::new and Regex::find_iter: the matched texts, in order.
#[verifier::external_body]
fn find_matches(pattern: &str, s: &str) -> (r: Option<Vec<String>>)
    ensures
        match r {
            Some(v) => regex_matches(pattern@, s@) == Some(string_views(v@)),
            None => regex_matches(pattern@, s@) is None,
        },
{
    match Regex::new(pattern) {
        Ok(re) => Some(re.find_iter(s).map(|m| m.as_str().to_string()).collect()),
        Err(_) => None,
    }
}

/// Relies on regex's Regex::new and Regex::replace_all.
#[verifier::external_body]
fn replace_matches(pattern: &str, s: &str, rep: &str) -> (r: Option<String>)
    ensures
        match r {
            Some(t) => regex_replaced(pattern@, s@, rep@) == Some(t@),
            None => regex_replaced(pattern@, s@, rep@) is None,
        },
{
    match Regex::new(pattern) {
        Ok(re) => Some(re.replace_all(s, rep).to_string()),
        Err(_) => None,
    }
}

/// Every non-overlapping occurrence of `from` in `s`, left to right,
/// replaced by `to`.
pub fn replace_text(s: &str, from: &str, to: &str) -> (r: String)
    requires
        from@.len() > 0,
    ensures
        r@ == replace_all(s@, from@, to@),
{
    let len = s.unicode_len();
    let fl = from.unicode_len();
    let mut out = String::new();
    let mut pos: usize = 0;
    assert(s@.subrange(0, len as int) =~= s@);
    while pos < len
        invariant
            len == s@.len(),
            fl == from@.len(),
            fl > 0,
            pos <= len,
            out@ + replace_all(s@.subrange(pos as int, len as int), from@, to@) == replace_all(
                s@,
                from@,
                to@,
            ),
        decreases len - pos,
    {
        let rest = s.substring_char(pos, len);
        let ghost old_out = out@;
        if len - pos < fl {
            out.append(rest);
            assert(out@ =~= old_out + replace_all(rest@, from@, to@));
            pos = len;
        } else if crate::dispatch::prefix_of(from, rest) {
            out.append(to);
            assert(rest@.subrange(fl as int, rest@.len() as int) =~= s@.subrange(
                (pos + fl) as int,
                len as int,
            ));
            assert(out@ + replace_all(s@.subrange((pos + fl) as int, len as int), from@, to@)
                =~= old_out + replace_all(rest@, from@, to@));
            pos = pos + fl;
        } else {
            let c = s.substring_char(pos, pos + 1);
            out.append(c);
            assert(c@ =~= seq![rest@[0]]);
            assert(rest@.drop_first() =~= s@.subrange(pos + 1, len as int));
            assert(out@ + replace_all(s@.subrange(pos + 1, len as int), from@, to@)
                =~= old_out + replace_all(rest@, from@, to@));
            pos = pos + 1;
        }
    }
    assert(s@.subrange(len as int, len as int) =~= Seq::<char>::empty());
    assert(replace_all(Seq::<char>::empty(), from@, to@) == Seq::<char>::empty());
    assert(out@ =~= out@ + Seq::<char>::empty());
    out
}

/// Rebuilds the markdown links `matches` (found in `text`, in order): each
/// one's occurrences become a link whose text and target are both the match
/// without its first and last characters.
pub fn rewrite_markdown_links(text: &str, matches: &Vec<String>) -> (r: String)
    ensures
        r@ == markdown_rewrite(text@, string_views(matches@)),
{
    let ghost mv = string_views(matches@);
    let mut out = String::from_str(text);
    let mut i: usize = 0;
    while i < matches.len()
        invariant
            mv == string_views(matches@),
            i <= matches.len(),
            out@ == markdown_rewrite(text@, mv.take(i as int)),
        decreases matches.len() - i,
    {
        let m = matches[i].as_str();
        let n = m.unicode_len();
        proof {
            assert(mv.take(i + 1).drop_last() =~= mv.take(i as int));
            assert(mv.take(i + 1).last() == m@);
        }
        if n >= 2 {
            let inner = m.substring_char(1, n - 1);
            let mut link = String::from_str("[");
            link.append(inner);
            link.append("](");
            link.append(inner);
            link.append(")");
            out = replace_text(out.as_str(), m, link.as_str());
        }
        i = i + 1;
    }
    assert(mv.take(matches@.len() as int) =~= mv);
    out
}

/// Rewrites the links of a bookmarked text; none only when one of the link
/// patterns does not compile.
pub fn replace_links_with_markdown(text: &str) -> (r: Option<String>)
    ensures
        match r {
            Some(t) => linkified(text@) == Some(t@),
            None => linkified(text@) is None,
        },
{
    let ms = match find_matches(MARKDOWN_LINK, text) {
        Some(ms) => ms,
        None => {
            return None;
        },
    };
    let out = rewrite_markdown_links(text, &ms);
    replace_matches(BARE_LINK, out.as_str(), WRAPPED_LINK)
}

/// The blocks whose kind is `rich`, in order.
pub open spec fn rich_only(items: Seq<(Seq<char>, BlockView)>) -> Seq<BlockView>
    decreases items.len(),
{
    if items.len() == 0 {
        Seq::empty()
    } else {
        let before = rich_only(items.drop_last());
        if items.last().0 == "rich"@ {
            before.push(items.last().1)
        } else {
            before
        }
    }
}

/// A block with the links of its body rewritten; none when that fails.
pub open spec fn linkified_block(b: BlockView) -> Option<BlockView> {
    match b.description {
        None => Some(b),
        Some(d) => match linkified(d) {
            Some(t) => Some(BlockView { description: Some(t), ..b }),
            None => None,
        },
    }
}

/// Whether a block of this kind is kept in a bookmark.
pub fn is_rich(kind: &str) -> (r: bool)
    ensures
        r == (kind@ == "rich"@),
{
    String::from_str(kind).eq(&String::from_str("rich"))
}

/// Keeps the blocks of kind `rich` (given as kind and block pairs) and
/// rewrites the links of their bodies; none when a rewrite fails.
pub fn rich_linkified(items: &Vec<(String, Block)>) -> (r: Option<Vec<Block>>)
    ensures
        ({
            let kept = rich_only(items@.map_values(|p: (String, Block)| (p.0@, p.1@)));
            match r {
                Some(v) => block_views(v@).len() == kept.len() && forall|i: int|
                    0 <= i < kept.len() ==> linkified_block(#[trigger] kept[i]) == Some(
                        block_views(v@)[i],
                    ),
                None => exists|i: int| 0 <= i < kept.len() && linkified_block(#[trigger] kept[i]) is None,
            }
        }),
{
    let ghost pv = items@.map_values(|p: (String, Block)| (p.0@, p.1@));
    let rich = String::from_str("rich");
    let mut out: Vec<Block> = Vec::new();
    let mut i: usize = 0;
    while i < items.len()
        invariant
            pv == items@.map_values(|p: (String, Block)| (p.0@, p.1@)),
            rich@ == "rich"@,
            i <= items.len(),
            block_views(out@).len() == rich_only(pv.take(i as int)).len(),
            forall|j: int|
                0 <= j < rich_only(pv.take(i as int)).len() ==> linkified_block(
                    #[trigger] rich_only(pv.take(i as int))[j],
                ) == Some(block_views(out@)[j]),
        decreases items.len() - i,
    {
        let ghost kept = rich_only(pv.take(i as int));
        proof {
            assert(pv.take(i + 1).drop_last() =~= pv.take(i as int));
            assert(pv.take(i + 1).last() == pv[i as int]);
        }
        if items[i].0.eq(&rich) {
            let b = &items[i].1;
            let mut nb = b.duplicate();
            match &b.description {
                Some(d) => {
                    match replace_links_with_markdown(d.as_str()) {
                        Some(t) => {
                            nb.description = Some(t);
                        },
                        None => {
                            assert(rich_only(pv.take(i + 1)) == kept.push(b@));
                            assert(linkified_block(rich_only(pv.take(i + 1))[kept.len() as int]) is None);
                            proof {
                                lemma_rich_prefix(pv, i as int + 1);
                            }
                            return None;
                        },
                    }
                },
                None => {},
            }
            let ghost before = out@;
            out.push(nb);
            assert(rich_only(pv.take(i + 1)) == kept.push(b@));
            assert(block_views(out@) =~= block_views(before).push(nb@));
        } else {
            assert(rich_only(pv.take(i + 1)) == kept);
        }
        i = i + 1;
    }
    assert(pv.take(items@.len() as int) =~= pv);
    Some(out)
}

/// What is kept of a prefix is a prefix of what is kept.
proof fn lemma_rich_prefix(items: Seq<(Seq<char>, BlockView)>, n: int)
    requires
        0 <= n <= items.len(),
    ensures
        rich_only(items.take(n)).len() <= rich_only(items).len(),
        forall|j: int|
            0 <= j < rich_only(items.take(n)).len() ==> #[trigger] rich_only(items.take(n))[j]
                == rich_only(items)[j],
    decreases items.len(),
{
    if n < items.len() {
        let t = items.drop_last();
        assert(t.take(n) =~= items.take(n));
        lemma_rich_prefix(t, n);
    } else {
        assert(items.take(n) =~= items);
    }
}

} // verus!
