//! How an answer is cut into messages.
use vstd::prelude::*;
use vstd::utf8::encode_utf8;

use crate::text::{
    begins_with, chars_of, contains_text, has_blank_line, has_text, is_white_space, joined,
    occurs_at, paragraphs, paragraphs_lie_between_blank_lines, split_paragraphs, starts_with,
    string_of, trim_chars, trimmed, trimmed_end, trimmed_start,
    trimming_takes_the_white_space_around, views,
};

verus! {

/// Bytes beyond which an answer is a document.
pub const DOCUMENT_LEN: usize = 2000;

/// Whether an answer has to stay in one piece: it holds code or headings, or is
/// long.
pub open spec fn is_document(text: Seq<char>) -> bool {
    ||| has_text(text, "```"@)
    ||| has_text(text, "\n# "@)
    ||| begins_with(text, "# "@)
    ||| has_text(text, "\n## "@)
    ||| encode_utf8(text).len() > DOCUMENT_LEN
}

/// Decides whether an answer has to stay in one piece.
pub fn stays_whole(text: &str) -> (r: bool)
    ensures
        r == is_document(text@),
{
    contains_text(text, "```") || contains_text(text, "\n# ") || starts_with(text, "# ")
        || contains_text(text, "\n## ") || text.as_bytes().len()
        > DOCUMENT_LEN
}

/// The pieces without white space around them; what is then empty goes.
pub open spec fn kept(pieces: Seq<Seq<char>>) -> Seq<Seq<char>>
    decreases pieces.len(),
{
    if pieces.len() == 0 {
        Seq::empty()
    } else {
        let before = kept(pieces.drop_last());
        let piece = trimmed(pieces.last());
        if piece.len() > 0 {
            before.push(piece)
        } else {
            before
        }
    }
}

/// The pieces of an answer.
pub open spec fn pieces_of(text: Seq<char>, by_paragraph: bool, may_split: bool) -> Seq<Seq<char>> {
    if may_split && by_paragraph && !is_document(text) {
        paragraphs(text)
    } else {
        seq![text]
    }
}

/// The messages in which an answer is sent.
pub open spec fn messages_for(text: Seq<char>, by_paragraph: bool, may_split: bool) -> Seq<
    Seq<char>,
> {
    kept(pieces_of(text, by_paragraph, may_split))
}

/// Cuts an answer into messages.
pub fn reply_messages(text: &str, by_paragraph: bool, may_split: bool) -> (r: Vec<String>)
    ensures
        views(r@) == messages_for(text@, by_paragraph, may_split),
{
    let pieces = if may_split && by_paragraph && !stays_whole(text) {
        split_paragraphs(text)
    } else {
        let mut whole: Vec<Vec<char>> = Vec::new();
        whole.push(chars_of(text));
        assert(whole@.map_values(|p: Vec<char>| p@) =~= seq![text@]);
        whole
    };
    let ghost all = pieces@.map_values(|p: Vec<char>| p@);
    let mut out: Vec<String> = Vec::new();
    let mut i: usize = 0;
    while i < pieces.len()
        invariant
            i <= pieces@.len(),
            all == pieces@.map_values(|p: Vec<char>| p@),
            views(out@) =~= kept(all.take(i as int)),
        decreases pieces@.len() - i,
    {
        let ghost before = views(out@);
        let piece = trim_chars(pieces[i].as_slice());
        assert(all.take(i + 1).drop_last() =~= all.take(i as int));
        assert(all.take(i + 1).last() == pieces@[i as int]@);
        if piece.len() > 0 {
            out.push(string_of(piece.as_slice()));
            assert(views(out@) =~= before.push(piece@));
        }
        i += 1;
    }
    assert(all.take(all.len() as int) =~= all);
    out
}

// ---------------------------------------------------------------------------
// Laws
// ---------------------------------------------------------------------------

/// The characters of a text that are not white space.
pub open spec fn ink(s: Seq<char>) -> Seq<char>
    decreases s.len(),
{
    if s.len() == 0 {
        Seq::empty()
    } else if is_white_space(s.last()) {
        ink(s.drop_last())
    } else {
        ink(s.drop_last()).push(s.last())
    }
}

/// The characters of several texts that are not white space.
pub open spec fn ink_of_all(list: Seq<Seq<char>>) -> Seq<char>
    decreases list.len(),
{
    if list.len() == 0 {
        Seq::empty()
    } else {
        ink_of_all(list.drop_last()) + ink(list.last())
    }
}

proof fn lemma_ink_adds(a: Seq<char>, b: Seq<char>)
    ensures
        ink(a + b) == ink(a) + ink(b),
    decreases b.len(),
{
    if b.len() == 0 {
        assert(a + b =~= a);
        assert(ink(a) + ink(b) =~= ink(a));
    } else {
        lemma_ink_adds(a, b.drop_last());
        assert((a + b).drop_last() =~= a + b.drop_last());
        assert((a + b).last() == b.last());
        assert(ink(a + b) =~= ink(a) + ink(b));
    }
}

proof fn lemma_ink_of_trimmed_end(s: Seq<char>)
    ensures
        ink(trimmed_end(s)) == ink(s),
    decreases s.len(),
{
    if s.len() > 0 && is_white_space(s.last()) {
        lemma_ink_of_trimmed_end(s.drop_last());
    }
}

proof fn lemma_ink_of_trimmed_start(s: Seq<char>)
    ensures
        ink(trimmed_start(s)) == ink(s),
    decreases s.len(),
{
    if s.len() > 0 && is_white_space(s[0]) {
        lemma_ink_of_trimmed_start(s.drop_first());
        let first = seq![s[0]];
        assert(s =~= first + s.drop_first());
        lemma_ink_adds(first, s.drop_first());
        reveal_with_fuel(ink, 2);
        assert(first.drop_last() =~= Seq::empty());
        assert(ink(first) =~= Seq::empty());
        assert(ink(first) + ink(s.drop_first()) =~= ink(s.drop_first()));
    }
}

proof fn lemma_ink_of_trimmed(s: Seq<char>)
    ensures
        ink(trimmed(s)) == ink(s),
{
    lemma_ink_of_trimmed_start(s);
    lemma_ink_of_trimmed_end(trimmed_start(s));
}

proof fn lemma_ink_kept(pieces: Seq<Seq<char>>)
    ensures
        ink_of_all(kept(pieces)) == ink_of_all(pieces),
    decreases pieces.len(),
{
    if pieces.len() > 0 {
        lemma_ink_kept(pieces.drop_last());
        lemma_ink_of_trimmed(pieces.last());
        let before = kept(pieces.drop_last());
        let piece = trimmed(pieces.last());
        if piece.len() > 0 {
            assert(before.push(piece).drop_last() =~= before);
        } else {
            assert(ink_of_all(pieces) =~= ink_of_all(pieces.drop_last()));
        }
    }
}

proof fn lemma_ink_of_all_adds(a: Seq<Seq<char>>, b: Seq<Seq<char>>)
    ensures
        ink_of_all(a + b) == ink_of_all(a) + ink_of_all(b),
    decreases b.len(),
{
    if b.len() == 0 {
        assert(a + b =~= a);
        assert(ink_of_all(a) + ink_of_all(b) =~= ink_of_all(a));
    } else {
        lemma_ink_of_all_adds(a, b.drop_last());
        assert((a + b).drop_last() =~= a + b.drop_last());
        assert((a + b).last() == b.last());
        assert(ink_of_all(a + b) =~= ink_of_all(a) + ink_of_all(b));
    }
}

proof fn lemma_ink_of_one(s: Seq<char>)
    ensures
        ink_of_all(seq![s]) == ink(s),
{
    reveal_with_fuel(ink_of_all, 2);
    assert(seq![s].drop_last() =~= Seq::empty());
    assert(ink_of_all(seq![s]) =~= ink(s));
}

proof fn lemma_ink_of_paragraphs(s: Seq<char>)
    ensures
        ink_of_all(paragraphs(s)) == ink(s),
    decreases s.len(),
{
    let b = crate::text::next_break(s, 0);
    lemma_ink_of_one(s);
    if 0 <= b && b + 2 <= s.len() {
        let head = s.take(b);
        let rest = s.skip(b + 2);
        let gap = s.subrange(b, b + 2);
        lemma_ink_of_paragraphs(rest);
        lemma_ink_of_one(head);
        lemma_ink_of_all_adds(seq![head], paragraphs(rest));
        crate::text::break_is_blank_line(s, 0);
        assert(gap.drop_last().drop_last() =~= Seq::empty());
        assert(ink(gap.drop_last().drop_last()) =~= Seq::empty());
        assert(gap.last() == '\n' && gap.drop_last().last() == '\n');
        assert(ink(gap.drop_last()) =~= Seq::empty());
        assert(ink(gap) =~= Seq::empty());
        lemma_ink_adds(head, gap);
        lemma_ink_adds(head + gap, rest);
        assert(head + gap + rest =~= s);
        assert(ink(head) + ink(gap) =~= ink(head));
    }
}

/// However an answer is cut, its messages together say the same: nothing but
/// white space is lost, and the order stays.
pub proof fn messages_say_it_all(text: Seq<char>, by_paragraph: bool, may_split: bool)
    ensures
        ink_of_all(messages_for(text, by_paragraph, may_split)) == ink(text),
{
    lemma_ink_kept(pieces_of(text, by_paragraph, may_split));
    lemma_ink_of_one(text);
    lemma_ink_of_paragraphs(text);
}

/// No message is empty.
pub proof fn messages_are_not_empty(text: Seq<char>, by_paragraph: bool, may_split: bool)
    ensures
        forall|i: int|
            0 <= i < messages_for(text, by_paragraph, may_split).len() ==> (
            #[trigger] messages_for(text, by_paragraph, may_split)[i]).len() > 0,
{
    lemma_kept_not_empty(pieces_of(text, by_paragraph, may_split));
}

proof fn lemma_kept_not_empty(pieces: Seq<Seq<char>>)
    ensures
        forall|i: int| 0 <= i < kept(pieces).len() ==> (#[trigger] kept(pieces)[i]).len() > 0,
    decreases pieces.len(),
{
    if pieces.len() > 0 {
        lemma_kept_not_empty(pieces.drop_last());
        let before = kept(pieces.drop_last());
        assert forall|i: int| 0 <= i < kept(pieces).len() implies (#[trigger] kept(pieces)[i]).len()
            > 0 by {
            if i < before.len() {
                assert(kept(pieces)[i] == before[i]);
            }
        }
    }
}

/// A document is one message at most.
pub proof fn documents_stay_whole(text: Seq<char>, by_paragraph: bool, may_split: bool)
    requires
        is_document(text),
    ensures
        messages_for(text, by_paragraph, may_split) == if trimmed(text).len() > 0 {
            seq![trimmed(text)]
        } else {
            Seq::empty()
        },
{
    let one = seq![text];
    assert(one.drop_last() =~= Seq::empty());
    assert(kept(one.drop_last()) =~= Seq::empty());
    assert(kept(one) =~= if trimmed(text).len() > 0 {
        seq![trimmed(text)]
    } else {
        Seq::empty()
    });
}

/// Where splitting is off, for paragraphs or altogether, an answer is one
/// message: all of it without the white space around it.
pub proof fn unsplit_answers_stay_whole(text: Seq<char>, by_paragraph: bool, may_split: bool)
    requires
        !by_paragraph || !may_split,
    ensures
        trimmed(text).len() > 0 ==> messages_for(text, by_paragraph, may_split) == seq![
            trimmed(text),
        ],
        trimmed(text).len() == 0 ==> messages_for(text, by_paragraph, may_split).len() == 0,
{
    let one = seq![text];
    assert(one.drop_last() =~= Seq::empty());
    assert(kept(one.drop_last()) =~= Seq::empty());
    if trimmed(text).len() > 0 {
        assert(kept(one) =~= seq![trimmed(text)]);
    }
}

proof fn lemma_kept_come_from_pieces(pieces: Seq<Seq<char>>)
    ensures
        forall|i: int|
            0 <= i < kept(pieces).len() ==> exists|k: int|
                0 <= k < pieces.len() && #[trigger] kept(pieces)[i] == trimmed(#[trigger] pieces[k]),
        forall|k: int|
            0 <= k < pieces.len() && trimmed(#[trigger] pieces[k]).len() > 0 ==> kept(
                pieces,
            ).contains(trimmed(pieces[k])),
        kept(pieces).len() <= pieces.len(),
    decreases pieces.len(),
{
    if pieces.len() > 0 {
        let front = pieces.drop_last();
        lemma_kept_come_from_pieces(front);
        let before = kept(front);
        let all = kept(pieces);
        assert forall|i: int| 0 <= i < all.len() implies exists|k: int|
            0 <= k < pieces.len() && #[trigger] all[i] == trimmed(#[trigger] pieces[k]) by {
            if i < before.len() {
                assert(all[i] == before[i]);
                let k = choose|k: int|
                    0 <= k < front.len() && before[i] == trimmed(#[trigger] front[k]);
                assert(pieces[k] == front[k]);
            } else {
                assert(all[i] == trimmed(pieces[pieces.len() - 1]));
            }
        }
        assert forall|k: int|
            0 <= k < pieces.len() && trimmed(#[trigger] pieces[k]).len() > 0 implies all.contains(
            trimmed(pieces[k]),
        ) by {
            if k < front.len() {
                assert(front[k] == pieces[k]);
                assert(before.contains(trimmed(front[k])));
                let i = choose|i: int| 0 <= i < before.len() && before[i] == trimmed(front[k]);
                assert(all[i] == before[i]);
            } else {
                assert(all[all.len() - 1] == trimmed(pieces[k]));
            }
        }
    }
}

proof fn lemma_part_of_a_paragraph(s: Seq<char>)
    requires
        !has_blank_line(s),
    ensures
        !has_blank_line(trimmed(s)),
{
    let (a, b) = trimming_takes_the_white_space_around(s);
    let t = trimmed(s);
    if has_blank_line(t) {
        let i = choose|i: int|
            0 <= i && i + 1 < t.len() && #[trigger] t[i] == '\n' && t[i + 1] == '\n';
        assert(s[a + i] == '\n' && s[a + i + 1] == '\n');
    }
}

/// Where splitting is on and an answer is no document, no message has a blank
/// line in it or white space around it, and none is empty.
pub proof fn split_messages_have_no_blank_line(text: Seq<char>, i: int)
    requires
        !is_document(text),
        0 <= i < messages_for(text, true, true).len(),
    ensures
        ({
            let message = messages_for(text, true, true)[i];
            &&& message.len() > 0
            &&& !has_blank_line(message)
            &&& !is_white_space(message[0])
            &&& !is_white_space(message.last())
        }),
{
    let pieces = paragraphs(text);
    paragraphs_lie_between_blank_lines(text);
    messages_are_not_empty(text, true, true);
    lemma_kept_come_from_pieces(pieces);
    let message = messages_for(text, true, true)[i];
    let k = choose|k: int| 0 <= k < pieces.len() && message == trimmed(#[trigger] pieces[k]);
    lemma_part_of_a_paragraph(pieces[k]);
    let ends = trimming_takes_the_white_space_around(pieces[k]);
}

/// Whether some texts are the paragraphs of a text: with a blank line between
/// each two they are the text, none has a blank line in it, and each blank line
/// begins as early as it can.
pub open spec fn are_paragraphs(pieces: Seq<Seq<char>>, text: Seq<char>) -> bool {
    &&& joined(pieces, "\n\n"@) == text
    &&& pieces.len() > 0
    &&& forall|k: int| 0 <= k < pieces.len() ==> !has_blank_line(#[trigger] pieces[k])
    &&& forall|k: int|
        0 <= k < pieces.len() - 1 ==> (#[trigger] pieces[k]).len() == 0 || pieces[k].last() != '\n'
}

/// Where splitting is on and an answer is no document, its messages are its
/// paragraphs without the white space around them: every message is a whole
/// one, and every one that is more than white space is a message.
pub proof fn messages_are_the_paragraphs(text: Seq<char>)
    requires
        !is_document(text),
    ensures
        exists|pieces: Seq<Seq<char>>| #[trigger]
            are_paragraphs(pieces, text) && messages_for(text, true, true).len() <= pieces.len() && (
            forall|i: int|
                0 <= i < messages_for(text, true, true).len() ==> exists|k: int|
                    0 <= k < pieces.len() && #[trigger] messages_for(text, true, true)[i] == trimmed(
                        #[trigger] pieces[k],
                    )) && (forall|k: int|
                0 <= k < pieces.len() && trimmed(#[trigger] pieces[k]).len() > 0 ==> messages_for(
                    text,
                    true,
                    true,
                ).contains(trimmed(pieces[k]))),
{
    let pieces = paragraphs(text);
    paragraphs_lie_between_blank_lines(text);
    lemma_kept_come_from_pieces(pieces);
    assert(are_paragraphs(pieces, text));
}

/// Two answers that are no documents, put together with a blank line in between
/// and again no document, are sent as the messages of the one followed by those
/// of the other.
pub proof fn a_blank_line_starts_a_new_message(first: Seq<char>, second: Seq<char>)
    requires
        !is_document(first),
        !is_document(second),
        !is_document(first + "\n\n"@ + second),
        first.len() > 0 ==> first.last() != '\n',
        !has_blank_line(first),
    ensures
        messages_for(first + "\n\n"@ + second, true, true) == messages_for(first, true, true)
            + messages_for(second, true, true),
{
    reveal_strlit("\n\n");
    let text = first + "\n\n"@ + second;
    lemma_break_behind(text, first.len() as int, 0);
    assert(text.take(first.len() as int) =~= first);
    assert(text.skip(first.len() as int + 2) =~= second);
    let rest = paragraphs(second);
    assert(paragraphs(text) == seq![first] + rest);
    assert(paragraphs(first) == seq![first]) by {
        crate::text::paragraphs_lie_between_blank_lines(first);
        let b = crate::text::next_break(first, 0);
        if 0 <= b && b + 2 <= first.len() {
            crate::text::break_is_blank_line(first, 0);
            assert(first[b] == '\n' && first[b + 1] == '\n');
        }
    }
    lemma_kept_adds(seq![first], rest);
}

proof fn lemma_break_behind(text: Seq<char>, n: int, i: int)
    requires
        0 <= i <= n,
        n + 1 < text.len(),
        text[n] == '\n' && text[n + 1] == '\n',
        forall|j: int| i <= j < n ==> !(#[trigger] text[j] == '\n' && text[j + 1] == '\n'),
    ensures
        crate::text::next_break(text, i) == n,
    decreases n - i,
{
    if i < n {
        assert(!(text[i] == '\n' && text[i + 1] == '\n'));
        lemma_break_behind(text, n, i + 1);
    }
}

proof fn lemma_kept_adds(a: Seq<Seq<char>>, b: Seq<Seq<char>>)
    ensures
        kept(a + b) == kept(a) + kept(b),
    decreases b.len(),
{
    if b.len() == 0 {
        assert(a + b =~= a);
        assert(kept(a) + kept(b) =~= kept(a));
    } else {
        lemma_kept_adds(a, b.drop_last());
        assert((a + b).drop_last() =~= a + b.drop_last());
        assert((a + b).last() == b.last());
        assert(kept(a + b) =~= kept(a) + kept(b));
    }
}

/// Whether a line of a text is a heading: a number sign and a space stand at its
/// start, or, in any line but the first, two number signs and a space.
pub open spec fn has_heading(text: Seq<char>) -> bool {
    ||| text.len() >= 2 && text[0] == '#' && text[1] == ' '
    ||| exists|i: int|
        0 <= i && i + 2 < text.len() && #[trigger] text[i] == '\n' && text[i + 1] == '#' && (text[i
            + 2] == ' ' || (i + 3 < text.len() && text[i + 2] == '#' && text[i + 3] == ' '))
}

/// Whether three backticks follow each other in a text.
pub open spec fn has_fence(text: Seq<char>) -> bool {
    exists|i: int|
        0 <= i && i + 2 < text.len() && #[trigger] text[i] == '`' && text[i + 1] == '`' && text[i
            + 2] == '`'
}

/// An answer is a document exactly where it holds a fence of code, has a heading
/// or takes more than two thousand bytes.
pub proof fn documents_have_code_headings_or_length(text: Seq<char>)
    ensures
        is_document(text) <==> has_fence(text) || has_heading(text) || encode_utf8(text).len()
            > 2000,
{
    reveal_strlit("```");
    reveal_strlit("\n# ");
    reveal_strlit("# ");
    reveal_strlit("\n## ");
    let fence = "```"@;
    let one = "\n# "@;
    let first = "# "@;
    let two = "\n## "@;
    if has_text(text, fence) {
        let i = choose|i: int| #[trigger] occurs_at(text, fence, i);
        let cut = text.subrange(i, i + 3);
        assert(cut[0] == text[i] && cut[1] == text[i + 1] && cut[2] == text[i + 2]);
        assert(text[i] == '`');
    }
    if has_text(text, one) {
        let i = choose|i: int| #[trigger] occurs_at(text, one, i);
        let cut = text.subrange(i, i + 3);
        assert(cut[0] == text[i] && cut[1] == text[i + 1] && cut[2] == text[i + 2]);
        assert(text[i] == '\n');
    }
    if has_text(text, two) {
        let i = choose|i: int| #[trigger] occurs_at(text, two, i);
        let cut = text.subrange(i, i + 4);
        assert(cut[0] == text[i] && cut[1] == text[i + 1] && cut[2] == text[i + 2] && cut[3]
            == text[i + 3]);
        assert(text[i] == '\n');
    }
    if begins_with(text, first) {
        let cut = text.subrange(0, 2);
        assert(cut[0] == text[0] && cut[1] == text[1]);
    }
    if has_fence(text) {
        let i = choose|i: int|
            0 <= i && i + 2 < text.len() && #[trigger] text[i] == '`' && text[i + 1] == '`' && text[i
                + 2] == '`';
        assert(text.subrange(i, i + 3) =~= fence);
        assert(occurs_at(text, fence, i));
    }
    if has_heading(text) {
        if text.len() >= 2 && text[0] == '#' && text[1] == ' ' {
            assert(text.subrange(0, 2) =~= first);
        } else {
            let i = choose|i: int|
                0 <= i && i + 2 < text.len() && #[trigger] text[i] == '\n' && text[i + 1] == '#' && (
                text[i + 2] == ' ' || (i + 3 < text.len() && text[i + 2] == '#' && text[i + 3]
                    == ' '));
            if text[i + 2] == ' ' {
                assert(text.subrange(i, i + 3) =~= one);
                assert(occurs_at(text, one, i));
            } else {
                assert(text.subrange(i, i + 4) =~= two);
                assert(occurs_at(text, two, i));
            }
        }
    }
}

} // verus!
