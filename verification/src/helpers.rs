//! The two text transforms that a page template applies to record fields.

use vstd::prelude::*;
use crate::text::{
    join, lemma_replace_absent, lemma_replace_concat, lemma_replace_removes, replace_char,
    replace_each,
};

verus! {

/// A text with a line-break tag in place of every newline.
pub open spec fn paragraph_text(s: Seq<char>) -> Seq<char> {
    replace_char(s, '\n', "<br />"@)
}

/// A text with a hyphen in place of every space.
pub open spec fn anchor_text(s: Seq<char>) -> Seq<char> {
    replace_char(s, ' ', "-"@)
}

/// Turns the newlines of a description into line-break tags, so that its
/// paragraphs survive in the page.
pub fn paragraph(text: &str) -> (r: String)
    ensures
        r@ == paragraph_text(text@),
{
    replace_each(text, '\n', "<br />")
}

/// Turns the spaces of a command chain into hyphens, which makes the link
/// target of the command's section.
pub fn anchor(text: &str) -> (r: String)
    ensures
        r@ == anchor_text(text@),
{
    replace_each(text, ' ', "-")
}

/// The anchor of a chain of names is the names' own anchors joined by
/// hyphens.
pub proof fn lemma_anchor_of_chain(names: Seq<Seq<char>>)
    ensures
        anchor_text(join(names, " "@)) == join(
            names.map_values(|n: Seq<char>| anchor_text(n)),
            "-"@,
        ),
    decreases names.len(),
{
    let anchors = names.map_values(|n: Seq<char>| anchor_text(n));
    reveal_strlit(" ");
    reveal_strlit("-");
    if names.len() == 0 {
    } else if names.len() == 1 {
    } else {
        let init = names.drop_last();
        lemma_anchor_of_chain(init);
        assert(anchors.drop_last() =~= init.map_values(|n: Seq<char>| anchor_text(n)));
        lemma_replace_concat(join(init, " "@) + " "@, names.last(), ' ', "-"@);
        lemma_replace_concat(join(init, " "@), " "@, ' ', "-"@);
        assert(" "@.drop_last() =~= Seq::<char>::empty());
        assert(anchor_text(" "@) =~= "-"@) by {
            reveal_with_fuel(replace_char, 2);
        }
    }
}

/// Where no name holds a space, the anchor of a chain is the names joined
/// by hyphens, and it holds no space.
pub proof fn lemma_anchor_of_plain_chain(names: Seq<Seq<char>>)
    requires
        forall|i: int| 0 <= i < names.len() ==> !(#[trigger] names[i]).contains(' '),
    ensures
        anchor_text(join(names, " "@)) == join(names, "-"@),
        !anchor_text(join(names, " "@)).contains(' '),
{
    lemma_anchor_of_chain(names);
    let anchors = names.map_values(|n: Seq<char>| anchor_text(n));
    assert forall|i: int| 0 <= i < names.len() implies anchors[i] == names[i] by {
        lemma_replace_absent(names[i], ' ', "-"@);
    }
    assert(anchors =~= names);
    reveal_strlit("-");
    assert(!"-"@.contains(' '));
    lemma_replace_removes(join(names, " "@), ' ', "-"@);
}

} // verus!
