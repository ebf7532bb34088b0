//! The lowering: from the well-formed rule tree of [`crate::grammar`] to the
//! typed document model of [`crate::usfm`]. Every function's result is
//! pinned, at the level of views, to the spec-level lowering defined here.

use vstd::prelude::*;
use vstd::string::StringExecFns;
use crate::grammar::{
    dec_value, is_attrib_rule, lemma_node_seq_view, lemma_wf_body_unpack,
    lemma_wf_character_unpack, lemma_wf_note_elem_unpack, lemma_wf_note_item_unpack,
    lemma_wf_note_unpack, node_seq_view, node_view, wf_attrib_item, wf_body, wf_body_item,
    wf_book_item, wf_char_item, wf_character, wf_note, wf_note_item, wf_reference, Node, NodeView,
    Rule,
};
use crate::tags::{
    book_encoding_of, book_identifier_of, caller_of, character_type_of,
    cross_ref_element_style_of, cross_ref_style_of, element_type_of, empty_type_of,
    footnote_element_style_of, footnote_style_of, numbered_element_type_of,
    numbered_paragraph_style_of, numbered_poetry_style_of, paragraph_style_of, poetry_style_of,
    to_book_encoding, to_book_identifier, to_caller, to_character_type, to_cross_ref_element_style,
    to_cross_ref_style, to_element_type, to_empty_type, to_footnote_element_style,
    to_footnote_style, to_numbered_element_type, to_numbered_paragraph_style,
    to_numbered_poetry_style, to_paragraph_style, to_poetry_style,
};
use crate::usfm::{
    Book, BookContents, BookContentsView, Character, CharacterContents, CharacterContentsView,
    CharacterView, CrossRef, CrossRefElement, CrossRefElementView, CrossRefView, Element,
    ElementContents, ElementContentsView, ElementView, Footnote, FootnoteElement,
    FootnoteElementView, FootnoteView, NoteElement, NoteElementView, NoteReference, Paragraph,
    ParagraphContents, ParagraphContentsView, ParagraphView, Poetry, PoetryView,
};

verus! {

broadcast use crate::grammar::lemma_node_view;

/// The attribute pair a single attribute node denotes: a bare value carries
/// the implicit key `lemma`, a named attribute carries its own name.
pub open spec fn lower_attrib(n: NodeView) -> (Seq<char>, Seq<char>) {
    if n.rule == Rule::Value {
        ("lemma"@, n.text)
    } else {
        (n.children[0].text, n.children[1].text)
    }
}

/// The contents a character-span body denotes: its non-attribute items in
/// order. Opaque; proofs go through [`lemma_lower_char_snoc`] and
/// [`lemma_lower_char_empty`].
#[verifier::opaque]
pub open spec fn lower_char_items(s: Seq<NodeView>) -> Seq<CharacterContentsView>
    decreases s, 0nat,
{
    if s.len() == 0 {
        Seq::empty()
    } else if is_attrib_rule(s.last().rule) {
        lower_char_items(s.drop_last())
    } else {
        lower_char_items(s.drop_last()).push(lower_char_item(s.last()))
    }
}

/// The attribute pairs a character-span body denotes, in source order.
#[verifier::opaque]
pub open spec fn lower_attribs(s: Seq<NodeView>) -> Seq<(Seq<char>, Seq<char>)>
    decreases s, 0nat,
{
    if s.len() == 0 {
        Seq::empty()
    } else if is_attrib_rule(s.last().rule) {
        lower_attribs(s.drop_last()).push(lower_attrib(s.last()))
    } else {
        lower_attribs(s.drop_last())
    }
}

/// The character-span item a node denotes: a text line or a nested span.
#[verifier::opaque]
pub open spec fn lower_char_item(n: NodeView) -> CharacterContentsView
    decreases n, 1nat,
{
    if n.rule == Rule::Line {
        CharacterContentsView::Line(n.text)
    } else {
        CharacterContentsView::Character(lower_character(n))
    }
}

/// The character span a node denotes.
#[verifier::opaque]
pub open spec fn lower_character(n: NodeView) -> CharacterView
    decreases n, 0nat,
{
    if n.children.len() >= 1 {
        CharacterView {
            ty: character_type_of(n.children[0].text).unwrap(),
            contents: lower_char_items(n.children.subrange(1, n.children.len() as int)),
            attributes: lower_attribs(n.children.subrange(1, n.children.len() as int)),
        }
    } else {
        vstd::pervasive::arbitrary()
    }
}

/// What an empty character-span body denotes.
pub proof fn lemma_lower_char_empty()
    ensures
        lower_char_items(Seq::<NodeView>::empty()) == Seq::<CharacterContentsView>::empty(),
        lower_attribs(Seq::<NodeView>::empty()) == Seq::<(Seq<char>, Seq<char>)>::empty(),
{
    reveal(lower_char_items);
    reveal(lower_attribs);
    reveal(lower_char_item);
    reveal(lower_character);
}

/// How one more node extends what a character-span body denotes.
pub proof fn lemma_lower_char_snoc(s: Seq<NodeView>, x: NodeView)
    ensures
        lower_char_items(s.push(x)) == if is_attrib_rule(x.rule) {
            lower_char_items(s)
        } else {
            lower_char_items(s).push(lower_char_item(x))
        },
        lower_attribs(s.push(x)) == if is_attrib_rule(x.rule) {
            lower_attribs(s).push(lower_attrib(x))
        } else {
            lower_attribs(s)
        },
{
    reveal(lower_char_items);
    reveal(lower_attribs);
    reveal(lower_char_item);
    reveal(lower_character);
    assert(s.push(x).drop_last() =~= s);
    assert(s.push(x).last() == x);
}

/// What [`lower_char_item`] is, case by case.
pub proof fn lemma_lower_char_item(n: NodeView)
    ensures
        n.rule == Rule::Line ==> lower_char_item(n) == CharacterContentsView::Line(n.text),
        n.rule != Rule::Line ==> lower_char_item(n) == CharacterContentsView::Character(
            lower_character(n),
        ),
{
    reveal(lower_char_items);
    reveal(lower_attribs);
    reveal(lower_char_item);
    reveal(lower_character);
}

/// What [`lower_character`] is on a node with a tag child.
pub proof fn lemma_lower_character(n: NodeView)
    requires
        n.children.len() >= 1,
    ensures
        lower_character(n) == (CharacterView {
            ty: character_type_of(n.children[0].text).unwrap(),
            contents: lower_char_items(n.children.subrange(1, n.children.len() as int)),
            attributes: lower_attribs(n.children.subrange(1, n.children.len() as int)),
        }),
{
    reveal(lower_char_items);
    reveal(lower_attribs);
    reveal(lower_char_item);
    reveal(lower_character);
}

/// The reference a reference node denotes.
pub open spec fn lower_reference(n: NodeView) -> NoteReference {
    NoteReference {
        chapter: dec_value(n.children[0].text) as u16,
        separator: n.children[1].text[0],
        verse: dec_value(n.children[2].text) as u16,
    }
}

/// The footnote element a note item denotes.
pub open spec fn lower_fnote_item(n: NodeView) -> FootnoteElementView {
    if n.rule == Rule::Ref {
        FootnoteElementView::Reference(lower_reference(n))
    } else {
        FootnoteElementView::Element(
            NoteElementView {
                style: footnote_element_style_of(n.children[0].text).unwrap(),
                contents: lower_char_items(n.children.subrange(1, n.children.len() as int)),
            },
        )
    }
}

/// The cross-reference element a note item denotes.
pub open spec fn lower_xref_item(n: NodeView) -> CrossRefElementView {
    if n.rule == Rule::Ref {
        CrossRefElementView::Reference(lower_reference(n))
    } else {
        CrossRefElementView::Element(
            NoteElementView {
                style: cross_ref_element_style_of(n.children[0].text).unwrap(),
                contents: lower_char_items(n.children.subrange(1, n.children.len() as int)),
            },
        )
    }
}

/// The footnote elements a note body denotes.
#[verifier::opaque]
pub open spec fn lower_fnote_items(s: Seq<NodeView>) -> Seq<FootnoteElementView>
    decreases s,
{
    if s.len() == 0 {
        Seq::empty()
    } else {
        lower_fnote_items(s.drop_last()).push(lower_fnote_item(s.last()))
    }
}

/// The cross-reference elements a note body denotes.
#[verifier::opaque]
pub open spec fn lower_xref_items(s: Seq<NodeView>) -> Seq<CrossRefElementView>
    decreases s,
{
    if s.len() == 0 {
        Seq::empty()
    } else {
        lower_xref_items(s.drop_last()).push(lower_xref_item(s.last()))
    }
}

/// How note bodies grow.
pub proof fn lemma_lower_note_snoc(s: Seq<NodeView>, x: NodeView)
    ensures
        lower_fnote_items(s.push(x)) == lower_fnote_items(s).push(lower_fnote_item(x)),
        lower_xref_items(s.push(x)) == lower_xref_items(s).push(lower_xref_item(x)),
        lower_fnote_items(Seq::<NodeView>::empty()) == Seq::<FootnoteElementView>::empty(),
        lower_xref_items(Seq::<NodeView>::empty()) == Seq::<CrossRefElementView>::empty(),
{
    reveal(lower_fnote_items);
    reveal(lower_xref_items);
    assert(s.push(x).drop_last() =~= s);
    assert(s.push(x).last() == x);
}

/// The footnote a footnote node denotes.
pub open spec fn lower_footnote(n: NodeView) -> FootnoteView {
    FootnoteView {
        style: footnote_style_of(n.children[0].text).unwrap(),
        caller: caller_of(n.children[1].text[0]),
        elements: lower_fnote_items(n.children.subrange(2, n.children.len() as int)),
    }
}

/// The cross-reference a cross-reference node denotes.
pub open spec fn lower_cross_ref(n: NodeView) -> CrossRefView {
    CrossRefView {
        style: cross_ref_style_of(n.children[0].text).unwrap(),
        caller: caller_of(n.children[1].text[0]),
        elements: lower_xref_items(n.children.subrange(2, n.children.len() as int)),
    }
}

/// The paragraph or poetry item a body node denotes.
pub open spec fn lower_para_item(n: NodeView) -> ParagraphContentsView {
    match n.rule {
        Rule::Verse => ParagraphContentsView::Verse(dec_value(n.children[0].text) as u16),
        Rule::Line => ParagraphContentsView::Line(n.text),
        Rule::Char => ParagraphContentsView::Character(lower_character(n)),
        Rule::Foot => ParagraphContentsView::Footnote(lower_footnote(n)),
        Rule::Xref => ParagraphContentsView::CrossRef(lower_cross_ref(n)),
        _ => vstd::pervasive::arbitrary(),
    }
}

/// The element item a body node denotes.
pub open spec fn lower_elem_item(n: NodeView) -> ElementContentsView {
    match n.rule {
        Rule::Line => ElementContentsView::Line(n.text),
        Rule::Char => ElementContentsView::Character(lower_character(n)),
        Rule::Foot => ElementContentsView::Footnote(lower_footnote(n)),
        Rule::Xref => ElementContentsView::CrossRef(lower_cross_ref(n)),
        _ => vstd::pervasive::arbitrary(),
    }
}

/// The paragraph or poetry contents a body denotes.
#[verifier::opaque]
pub open spec fn lower_para_items(s: Seq<NodeView>) -> Seq<ParagraphContentsView>
    decreases s,
{
    if s.len() == 0 {
        Seq::empty()
    } else {
        lower_para_items(s.drop_last()).push(lower_para_item(s.last()))
    }
}

/// The element contents a body denotes.
#[verifier::opaque]
pub open spec fn lower_elem_items(s: Seq<NodeView>) -> Seq<ElementContentsView>
    decreases s,
{
    if s.len() == 0 {
        Seq::empty()
    } else {
        lower_elem_items(s.drop_last()).push(lower_elem_item(s.last()))
    }
}

/// How container bodies grow.
pub proof fn lemma_lower_body_snoc(s: Seq<NodeView>, x: NodeView)
    ensures
        lower_para_items(s.push(x)) == lower_para_items(s).push(lower_para_item(x)),
        lower_elem_items(s.push(x)) == lower_elem_items(s).push(lower_elem_item(x)),
        lower_para_items(Seq::<NodeView>::empty()) == Seq::<ParagraphContentsView>::empty(),
        lower_elem_items(Seq::<NodeView>::empty()) == Seq::<ElementContentsView>::empty(),
{
    reveal(lower_para_items);
    reveal(lower_elem_items);
    assert(s.push(x).drop_last() =~= s);
    assert(s.push(x).last() == x);
}

/// The top-level entry a book-item node denotes.
pub open spec fn lower_book_item(n: NodeView) -> BookContentsView {
    match n.rule {
        Rule::Id => BookContentsView::Id {
            code: book_identifier_of(n.children[0].text).unwrap(),
            text: n.children[1].text,
        },
        Rule::Usfm => BookContentsView::Usfm(n.children[0].text),
        Rule::Ide => BookContentsView::Encoding(book_encoding_of(n.children[0].text).unwrap()),
        Rule::Sts => BookContentsView::Status(dec_value(n.children[0].text) as u16),
        Rule::Chap => BookContentsView::Chapter(dec_value(n.children[0].text) as u16),
        Rule::ChapAlt => BookContentsView::AltChapter(dec_value(n.children[0].text) as u16),
        Rule::Para => BookContentsView::Paragraph(
            ParagraphView {
                style: paragraph_style_of(n.children[0].text).unwrap(),
                contents: lower_para_items(n.children.subrange(1, n.children.len() as int)),
            },
        ),
        Rule::ParaNum => BookContentsView::Paragraph(
            ParagraphView {
                style: numbered_paragraph_style_of(
                    n.children[0].text,
                    dec_value(n.children[1].text) as u8,
                ).unwrap(),
                contents: lower_para_items(n.children.subrange(2, n.children.len() as int)),
            },
        ),
        Rule::Poem => BookContentsView::Poetry(
            PoetryView {
                style: poetry_style_of(n.children[0].text).unwrap(),
                contents: lower_para_items(n.children.subrange(1, n.children.len() as int)),
            },
        ),
        Rule::PoemNum => BookContentsView::Poetry(
            PoetryView {
                style: numbered_poetry_style_of(
                    n.children[0].text,
                    dec_value(n.children[1].text) as u8,
                ).unwrap(),
                contents: lower_para_items(n.children.subrange(2, n.children.len() as int)),
            },
        ),
        Rule::Elem => BookContentsView::Element(
            ElementView {
                ty: element_type_of(n.children[0].text).unwrap(),
                contents: lower_elem_items(n.children.subrange(1, n.children.len() as int)),
            },
        ),
        Rule::ElemNum => BookContentsView::Element(
            ElementView {
                ty: numbered_element_type_of(
                    n.children[0].text,
                    dec_value(n.children[1].text) as u8,
                ).unwrap(),
                contents: lower_elem_items(n.children.subrange(2, n.children.len() as int)),
            },
        ),
        Rule::Empty => BookContentsView::Empty(empty_type_of(n.children[0].text).unwrap()),
        _ => vstd::pervasive::arbitrary(),
    }
}

/// The document a sequence of book-item nodes denotes.
#[verifier::opaque]
pub open spec fn lower_book_items(s: Seq<NodeView>) -> Seq<BookContentsView>
    decreases s,
{
    if s.len() == 0 {
        Seq::empty()
    } else {
        lower_book_items(s.drop_last()).push(lower_book_item(s.last()))
    }
}

/// How documents grow, and what they are pointwise.
pub proof fn lemma_lower_book_snoc(s: Seq<NodeView>, x: NodeView)
    ensures
        lower_book_items(s.push(x)) == lower_book_items(s).push(lower_book_item(x)),
        lower_book_items(Seq::<NodeView>::empty()) == Seq::<BookContentsView>::empty(),
{
    reveal(lower_book_items);
    assert(s.push(x).drop_last() =~= s);
    assert(s.push(x).last() == x);
}

/// The document denoted is pointwise the denotation of its entries.
pub proof fn lemma_lower_book_items(s: Seq<NodeView>)
    ensures
        lower_book_items(s).len() == s.len(),
        forall|i: int| 0 <= i < s.len() ==> lower_book_items(s)[i] == lower_book_item(s[i]),
    decreases s,
{
    reveal(lower_book_items);
    if s.len() > 0 {
        lemma_lower_book_items(s.drop_last());
    }
}

/// The contents of a lowered container body are pointwise the lowering of
/// its nodes.
pub proof fn lemma_lower_para_items_pointwise(s: Seq<NodeView>)
    ensures
        lower_para_items(s).len() == s.len(),
        forall|i: int| 0 <= i < s.len() ==> lower_para_items(s)[i] == lower_para_item(s[i]),
    decreases s,
{
    reveal(lower_para_items);
    if s.len() > 0 {
        lemma_lower_para_items_pointwise(s.drop_last());
    }
}

/// The contents of a lowered element body are pointwise the lowering of its
/// nodes.
pub proof fn lemma_lower_elem_items_pointwise(s: Seq<NodeView>)
    ensures
        lower_elem_items(s).len() == s.len(),
        forall|i: int| 0 <= i < s.len() ==> lower_elem_items(s)[i] == lower_elem_item(s[i]),
    decreases s,
{
    reveal(lower_elem_items);
    if s.len() > 0 {
        lemma_lower_elem_items_pointwise(s.drop_last());
    }
}

/// Text maximality for paragraph and poetry contents: lowering a well-formed
/// container body emits no empty text line and never two text lines side by
/// side.
pub proof fn lemma_text_maximality_para(s: Seq<NodeView>, verses: bool)
    requires
        wf_body(s, verses),
    ensures
        forall|i: int|
            0 <= i < lower_para_items(s).len() ==> ((#[trigger] lower_para_items(s)[i]) matches
                ParagraphContentsView::Line(t) ==> t.len() > 0),
        forall|i: int|
            0 <= i && i + 1 < lower_para_items(s).len() ==> !((#[trigger] lower_para_items(
                s,
            )[i]) is Line && lower_para_items(s)[i + 1] is Line),
{
    lemma_lower_para_items_pointwise(s);
    lemma_wf_body_unpack(s, verses);
    assert forall|i: int| 0 <= i < s.len() implies ((#[trigger] lower_para_items(s)[i]) is Line
        <==> s[i].rule == Rule::Line) && (lower_para_items(s)[i] matches
        ParagraphContentsView::Line(t) ==> t.len() > 0) by {
        crate::grammar::lemma_wf_body_item_unpack(s[i], verses);
    }
}

/// Text maximality for element contents: lowering a well-formed container
/// body emits no empty text line and never two text lines side by side.
pub proof fn lemma_text_maximality_elem(s: Seq<NodeView>)
    requires
        wf_body(s, false),
    ensures
        forall|i: int|
            0 <= i < lower_elem_items(s).len() ==> ((#[trigger] lower_elem_items(s)[i]) matches
                ElementContentsView::Line(t) ==> t.len() > 0),
        forall|i: int|
            0 <= i && i + 1 < lower_elem_items(s).len() ==> !((#[trigger] lower_elem_items(
                s,
            )[i]) is Line && lower_elem_items(s)[i + 1] is Line),
{
    lemma_lower_elem_items_pointwise(s);
    lemma_wf_body_unpack(s, false);
    assert forall|i: int| 0 <= i < s.len() implies ((#[trigger] lower_elem_items(s)[i]) is Line
        <==> s[i].rule == Rule::Line) && (lower_elem_items(s)[i] matches
        ElementContentsView::Line(t) ==> t.len() > 0) by {
        crate::grammar::lemma_wf_body_item_unpack(s[i], false);
    }
}

/// Text maximality inside character spans: lowering a well-formed
/// character-span body emits no empty text line and never two text lines
/// side by side, even though the attribute nodes are filtered out, because
/// the attribute block only ever stands at the end.
#[verifier::rlimit(100)]
#[verifier::spinoff_prover]
pub proof fn lemma_text_maximality_char(s: Seq<NodeView>)
    requires
        crate::grammar::wf_char_body(s),
    ensures
        forall|i: int|
            0 <= i < lower_char_items(s).len() ==> ((#[trigger] lower_char_items(s)[i]) matches
                CharacterContentsView::Line(t) ==> t.len() > 0),
        forall|i: int|
            0 <= i && i + 1 < lower_char_items(s).len() ==> !((#[trigger] lower_char_items(
                s,
            )[i]) is Line && lower_char_items(s)[i + 1] is Line),
        lower_char_items(s).len() > 0 && lower_char_items(s).last() is Line ==> s.len() > 0 && (
        s.last().rule == Rule::Line || is_attrib_rule(s.last().rule)),
    decreases s,
{
    reveal(lower_char_items);
    reveal(lower_char_item);
    if s.len() > 0 {
        let t = s.drop_last();
        assert(crate::grammar::wf_char_body(t)) by {
            assert forall|i: int| 0 <= i < t.len() implies t[i] == s[i] by {}
            assert forall|i: int|
                0 <= i && i + 1 < t.len() && is_attrib_rule(
                    (#[trigger] t[i]).rule,
                ) implies is_attrib_rule(t[i + 1].rule) by {
                assert(t[i] == s[i]);
                assert(t[i + 1] == s[i + 1]);
            }
            assert forall|i: int|
                0 <= i && i + 1 < t.len() implies !(#[trigger] t[i].rule == Rule::Line && t[i
                + 1].rule == Rule::Line) by {
                assert(t[i] == s[i]);
                assert(t[i + 1] == s[i + 1]);
            }
        };
        lemma_text_maximality_char(t);
        let x = s.last();
        if !is_attrib_rule(x.rule) {
            assert(lower_char_items(s) == lower_char_items(t).push(lower_char_item(x)));
            if x.rule == Rule::Line {
                assert(crate::grammar::wf_line(x)) by {
                    assert(crate::grammar::wf_char_item(x));
                }
                if lower_char_items(t).len() > 0 && lower_char_items(t).last() is Line {
                    assert(t.len() > 0);
                    assert(t.last() == s[s.len() - 2]);
                    if is_attrib_rule(t.last().rule) {
                        assert(is_attrib_rule(s[s.len() - 2].rule));
                        assert(is_attrib_rule(s[s.len() - 1].rule));
                        assert(false);
                    } else {
                        assert(t.last().rule == Rule::Line);
                        assert(!(s[s.len() - 2].rule == Rule::Line && s[s.len() - 1].rule
                            == Rule::Line));
                        assert(false);
                    }
                }
            }
            assert forall|i: int|
                0 <= i && i + 1 < lower_char_items(s).len() implies !((
                #[trigger] lower_char_items(s)[i]) is Line && lower_char_items(s)[i + 1]
                is Line) by {
                if i + 1 < lower_char_items(t).len() {
                    assert(lower_char_items(s)[i] == lower_char_items(t)[i]);
                    assert(lower_char_items(s)[i + 1] == lower_char_items(t)[i + 1]);
                } else {
                    assert(lower_char_items(s)[i + 1] == lower_char_item(x));
                    assert(lower_char_items(s)[i] == lower_char_items(t)[i]);
                }
            }
        } else {
            assert(lower_char_items(s) == lower_char_items(t));
        }
    }
}

/// Lowering well-formed character-span contents keeps lines maximal at any
/// depth.
#[verifier::rlimit(100)]
#[verifier::spinoff_prover]
proof fn lemma_char_items_preserve_lines(s: Seq<NodeView>)
    requires
        forall|k: int|
            0 <= k < s.len() ==> {
                if is_attrib_rule((#[trigger] s[k]).rule) {
                    wf_attrib_item(s[k])
                } else {
                    wf_char_item(s[k])
                }
            },
    ensures
        crate::usfm::char_items_lines_ok(lower_char_items(s)),
    decreases s, 0nat,
{
    reveal(lower_char_items);
    if s.len() > 0 {
        let t = s.drop_last();
        assert forall|k: int| 0 <= k < t.len() implies {
            if is_attrib_rule((#[trigger] t[k]).rule) {
                wf_attrib_item(t[k])
            } else {
                wf_char_item(t[k])
            }
        } by {
            assert(t[k] == s[k]);
        }
        lemma_char_items_preserve_lines(t);
        if !is_attrib_rule(s.last().rule) {
            lemma_char_item_preserves_lines(s.last());
            let w = lower_char_items(t).push(lower_char_item(s.last()));
            assert(w.drop_last() =~= lower_char_items(t));
        }
    }
}

/// Lowering a well-formed character-span body keeps its denoted contents
/// line-maximal.
#[verifier::rlimit(100)]
#[verifier::spinoff_prover]
proof fn lemma_char_body_preserves_lines(s: Seq<NodeView>)
    requires
        crate::grammar::wf_char_body(s),
    ensures
        crate::usfm::char_seq_lines_ok(lower_char_items(s)),
    decreases s, 1nat,
{
    lemma_text_maximality_char(s);
    lemma_char_items_preserve_lines(s);
}

/// Lowering a well-formed character span keeps lines maximal at any depth.
#[verifier::rlimit(100)]
#[verifier::spinoff_prover]
proof fn lemma_character_preserves_lines(n: NodeView)
    requires
        wf_character(n),
    ensures
        crate::usfm::char_seq_lines_ok(lower_character(n).contents),
    decreases n, 2nat,
{
    lemma_wf_character_unpack(n);
    let sub = n.children.subrange(1, n.children.len() as int);
    assert forall|k: int| 0 <= k < sub.len() implies {
        if is_attrib_rule((#[trigger] sub[k]).rule) {
            wf_attrib_item(sub[k])
        } else {
            wf_char_item(sub[k])
        }
    } by {
        assert(sub[k] == n.children[k + 1]);
    }
    assert(crate::grammar::wf_char_body(sub));
    lemma_char_body_preserves_lines(sub);
    lemma_lower_character(n);
}

/// Lowering one well-formed character-span item keeps lines maximal.
#[verifier::rlimit(100)]
#[verifier::spinoff_prover]
proof fn lemma_char_item_preserves_lines(n: NodeView)
    requires
        wf_char_item(n),
    ensures
        crate::usfm::char_item_lines_ok(lower_char_item(n)),
    decreases n, 3nat,
{
    lemma_lower_char_item(n);
    if n.rule == Rule::Line {
    } else {
        lemma_character_preserves_lines(n);
    }
}

/// Lowering well-formed footnote items keeps lines maximal at any depth.
#[verifier::rlimit(100)]
#[verifier::spinoff_prover]
proof fn lemma_fnote_items_preserve_lines(s: Seq<NodeView>)
    requires
        forall|k: int| 0 <= k < s.len() ==> wf_note_item(#[trigger] s[k], true),
    ensures
        crate::usfm::fnote_items_lines_ok(lower_fnote_items(s)),
    decreases s,
{
    reveal(lower_fnote_items);
    if s.len() > 0 {
        let t = s.drop_last();
        assert forall|k: int| 0 <= k < t.len() implies wf_note_item(#[trigger] t[k], true) by {
            assert(t[k] == s[k]);
        }
        lemma_fnote_items_preserve_lines(t);
        let x = s.last();
        lemma_wf_note_item_unpack(x, true);
        if x.rule != Rule::Ref {
            lemma_note_elem_preserves_lines(x, true);
        }
        let w = lower_fnote_items(t).push(lower_fnote_item(x));
        assert(w.drop_last() =~= lower_fnote_items(t));
    }
}

/// Lowering well-formed cross-reference items keeps lines maximal at any
/// depth.
#[verifier::rlimit(100)]
#[verifier::spinoff_prover]
proof fn lemma_xref_items_preserve_lines(s: Seq<NodeView>)
    requires
        forall|k: int| 0 <= k < s.len() ==> wf_note_item(#[trigger] s[k], false),
    ensures
        crate::usfm::xref_items_lines_ok(lower_xref_items(s)),
    decreases s,
{
    reveal(lower_xref_items);
    if s.len() > 0 {
        let t = s.drop_last();
        assert forall|k: int| 0 <= k < t.len() implies wf_note_item(#[trigger] t[k], false) by {
            assert(t[k] == s[k]);
        }
        lemma_xref_items_preserve_lines(t);
        let x = s.last();
        lemma_wf_note_item_unpack(x, false);
        if x.rule != Rule::Ref {
            lemma_note_elem_preserves_lines(x, false);
        }
        let w = lower_xref_items(t).push(lower_xref_item(x));
        assert(w.drop_last() =~= lower_xref_items(t));
    }
}

/// The contents of a well-formed note element form a well-formed
/// character-span body: all items, no attributes, lines separated.
#[verifier::rlimit(100)]
#[verifier::spinoff_prover]
proof fn lemma_note_elem_char_body(n: NodeView, foot: bool)
    requires
        crate::grammar::wf_note_elem(n, foot),
    ensures
        crate::grammar::wf_char_body(n.children.subrange(1, n.children.len() as int)),
{
    lemma_wf_note_elem_unpack(n, foot);
    let sub = n.children.subrange(1, n.children.len() as int);
    assert forall|k: int| 0 <= k < sub.len() implies wf_char_item(#[trigger] sub[k])
        && !is_attrib_rule(sub[k].rule) by {
        assert(sub[k] == n.children[k + 1]);
    }
    assert(crate::grammar::attribs_at_end(sub));
    assert(crate::grammar::lines_separated(sub));
    assert(crate::grammar::wf_char_body(sub));
}

/// Lowering a well-formed note element keeps lines maximal at any depth.
#[verifier::rlimit(100)]
#[verifier::spinoff_prover]
proof fn lemma_note_elem_preserves_lines(n: NodeView, foot: bool)
    requires
        crate::grammar::wf_note_elem(n, foot),
    ensures
        crate::usfm::char_seq_lines_ok(
            lower_char_items(n.children.subrange(1, n.children.len() as int)),
        ),
{
    lemma_note_elem_char_body(n, foot);
    lemma_char_body_preserves_lines(n.children.subrange(1, n.children.len() as int));
}

/// Lowering a well-formed container body keeps lines maximal at any depth.
#[verifier::rlimit(100)]
#[verifier::spinoff_prover]
proof fn lemma_para_items_preserve_lines(s: Seq<NodeView>, verses: bool)
    requires
        forall|k: int| 0 <= k < s.len() ==> wf_body_item(#[trigger] s[k], verses),
    ensures
        crate::usfm::para_items_lines_ok(lower_para_items(s)),
    decreases s,
{
    reveal(lower_para_items);
    if s.len() > 0 {
        let t = s.drop_last();
        assert forall|k: int| 0 <= k < t.len() implies wf_body_item(#[trigger] t[k], verses) by {
            assert(t[k] == s[k]);
        }
        lemma_para_items_preserve_lines(t, verses);
        let x = s.last();
        crate::grammar::lemma_wf_body_item_unpack(x, verses);
        if x.rule == Rule::Char {
            lemma_character_preserves_lines(x);
        } else if x.rule == Rule::Foot {
            lemma_wf_note_unpack(x, true);
            let items = x.children.subrange(2, x.children.len() as int);
            assert forall|k: int| 0 <= k < items.len() implies wf_note_item(
                #[trigger] items[k],
                true,
            ) by {
                assert(items[k] == x.children[k + 2]);
            }
            lemma_fnote_items_preserve_lines(items);
        } else if x.rule == Rule::Xref {
            lemma_wf_note_unpack(x, false);
            let items = x.children.subrange(2, x.children.len() as int);
            assert forall|k: int| 0 <= k < items.len() implies wf_note_item(
                #[trigger] items[k],
                false,
            ) by {
                assert(items[k] == x.children[k + 2]);
            }
            lemma_xref_items_preserve_lines(items);
        }
        let w = lower_para_items(t).push(lower_para_item(x));
        assert(w.drop_last() =~= lower_para_items(t));
    }
}

/// Lowering a well-formed element body keeps lines maximal at any depth.
#[verifier::rlimit(100)]
#[verifier::spinoff_prover]
proof fn lemma_elem_items_preserve_lines(s: Seq<NodeView>)
    requires
        forall|k: int| 0 <= k < s.len() ==> wf_body_item(#[trigger] s[k], false),
    ensures
        crate::usfm::elem_items_lines_ok(lower_elem_items(s)),
    decreases s,
{
    reveal(lower_elem_items);
    if s.len() > 0 {
        let t = s.drop_last();
        assert forall|k: int| 0 <= k < t.len() implies wf_body_item(#[trigger] t[k], false) by {
            assert(t[k] == s[k]);
        }
        lemma_elem_items_preserve_lines(t);
        let x = s.last();
        crate::grammar::lemma_wf_body_item_unpack(x, false);
        if x.rule == Rule::Char {
            lemma_character_preserves_lines(x);
        } else if x.rule == Rule::Foot {
            lemma_wf_note_unpack(x, true);
            let items = x.children.subrange(2, x.children.len() as int);
            assert forall|k: int| 0 <= k < items.len() implies wf_note_item(
                #[trigger] items[k],
                true,
            ) by {
                assert(items[k] == x.children[k + 2]);
            }
            lemma_fnote_items_preserve_lines(items);
        } else if x.rule == Rule::Xref {
            lemma_wf_note_unpack(x, false);
            let items = x.children.subrange(2, x.children.len() as int);
            assert forall|k: int| 0 <= k < items.len() implies wf_note_item(
                #[trigger] items[k],
                false,
            ) by {
                assert(items[k] == x.children[k + 2]);
            }
            lemma_xref_items_preserve_lines(items);
        }
        let w = lower_elem_items(t).push(lower_elem_item(x));
        assert(w.drop_last() =~= lower_elem_items(t));
    }
}

/// Text maximality of whole documents: lowering a sequence of well-formed
/// top-level entries yields contents in which, at any depth, no text line is
/// empty and no two text lines stand side by side.
#[verifier::rlimit(100)]
#[verifier::spinoff_prover]
pub proof fn lemma_book_items_preserve_lines(s: Seq<NodeView>)
    requires
        forall|k: int| 0 <= k < s.len() ==> wf_book_item(#[trigger] s[k]),
    ensures
        crate::usfm::book_items_lines_ok(lower_book_items(s)),
    decreases s,
{
    reveal(lower_book_items);
    if s.len() > 0 {
        let t = s.drop_last();
        assert forall|k: int| 0 <= k < t.len() implies wf_book_item(#[trigger] t[k]) by {
            assert(t[k] == s[k]);
        }
        lemma_book_items_preserve_lines(t);
        let x = s.last();
        crate::grammar::lemma_wf_book_item_reveal(x);
        if x.rule == Rule::Para || x.rule == Rule::Poem {
            let sub = x.children.subrange(1, x.children.len() as int);
            lemma_wf_body_unpack(sub, true);
            lemma_para_items_preserve_lines(sub, true);
            lemma_text_maximality_para(sub, true);
        } else if x.rule == Rule::ParaNum || x.rule == Rule::PoemNum {
            let sub = x.children.subrange(2, x.children.len() as int);
            lemma_wf_body_unpack(sub, true);
            lemma_para_items_preserve_lines(sub, true);
            lemma_text_maximality_para(sub, true);
        } else if x.rule == Rule::Elem {
            let sub = x.children.subrange(1, x.children.len() as int);
            lemma_wf_body_unpack(sub, false);
            lemma_elem_items_preserve_lines(sub);
            lemma_text_maximality_elem(sub);
        } else if x.rule == Rule::ElemNum {
            let sub = x.children.subrange(2, x.children.len() as int);
            lemma_wf_body_unpack(sub, false);
            lemma_elem_items_preserve_lines(sub);
            lemma_text_maximality_elem(sub);
        }
        let w = lower_book_items(t).push(lower_book_item(x));
        assert(w.drop_last() =~= lower_book_items(t));
    }
}

/// The elements of a lowered footnote are pointwise the lowering of its
/// nodes.
proof fn lemma_lower_fnote_items_pointwise(s: Seq<NodeView>)
    ensures
        lower_fnote_items(s).len() == s.len(),
        forall|i: int| 0 <= i < s.len() ==> lower_fnote_items(s)[i] == lower_fnote_item(s[i]),
    decreases s,
{
    reveal(lower_fnote_items);
    if s.len() > 0 {
        lemma_lower_fnote_items_pointwise(s.drop_last());
    }
}

/// The elements of a lowered cross-reference are pointwise the lowering of
/// its nodes.
proof fn lemma_lower_xref_items_pointwise(s: Seq<NodeView>)
    ensures
        lower_xref_items(s).len() == s.len(),
        forall|i: int| 0 <= i < s.len() ==> lower_xref_items(s)[i] == lower_xref_item(s[i]),
    decreases s,
{
    reveal(lower_xref_items);
    if s.len() > 0 {
        lemma_lower_xref_items_pointwise(s.drop_last());
    }
}

/// Lowering a well-formed body item never produces an unmapped note element
/// style.
proof fn lemma_para_item_preserves_styles(n: NodeView, verses: bool)
    requires
        wf_body_item(n, verses),
    ensures
        crate::usfm::para_item_styles_ok(lower_para_item(n)),
{
    crate::grammar::lemma_wf_body_item_unpack(n, verses);
    if n.rule == Rule::Foot {
        lemma_wf_note_unpack(n, true);
        let items = n.children.subrange(2, n.children.len() as int);
        lemma_lower_fnote_items_pointwise(items);
        assert forall|k: int| 0 <= k < lower_fnote_items(items).len() implies ((
        #[trigger] lower_fnote_items(items)[k]) matches FootnoteElementView::Element(ne)
            ==> ne.style != crate::usfm::FootnoteElementStyle::Reference) by {
            assert(items[k] == n.children[k + 2]);
            lemma_wf_note_item_unpack(items[k], true);
            if items[k].rule != Rule::Ref {
                lemma_wf_note_elem_unpack(items[k], true);
                crate::tags::lemma_footnote_element_style_no_reference(
                    items[k].children[0].text,
                );
            }
        }
    } else if n.rule == Rule::Xref {
        lemma_wf_note_unpack(n, false);
        let items = n.children.subrange(2, n.children.len() as int);
        lemma_lower_xref_items_pointwise(items);
        assert forall|k: int| 0 <= k < lower_xref_items(items).len() implies ((
        #[trigger] lower_xref_items(items)[k]) matches CrossRefElementView::Element(ne)
            ==> ne.style != crate::usfm::CrossRefElementStyle::Reference) by {
            assert(items[k] == n.children[k + 2]);
            lemma_wf_note_item_unpack(items[k], false);
            if items[k].rule != Rule::Ref {
                lemma_wf_note_elem_unpack(items[k], false);
                crate::tags::lemma_cross_ref_element_style_no_reference(
                    items[k].children[0].text,
                );
            }
        }
    }
}

/// Lowering a well-formed element item never produces an unmapped note
/// element style.
proof fn lemma_elem_item_preserves_styles(n: NodeView)
    requires
        wf_body_item(n, false),
    ensures
        crate::usfm::elem_item_styles_ok(lower_elem_item(n)),
{
    crate::grammar::lemma_wf_body_item_unpack(n, false);
    if n.rule == Rule::Foot {
        lemma_wf_note_unpack(n, true);
        let items = n.children.subrange(2, n.children.len() as int);
        lemma_lower_fnote_items_pointwise(items);
        assert forall|k: int| 0 <= k < lower_fnote_items(items).len() implies ((
        #[trigger] lower_fnote_items(items)[k]) matches FootnoteElementView::Element(ne)
            ==> ne.style != crate::usfm::FootnoteElementStyle::Reference) by {
            assert(items[k] == n.children[k + 2]);
            lemma_wf_note_item_unpack(items[k], true);
            if items[k].rule != Rule::Ref {
                lemma_wf_note_elem_unpack(items[k], true);
                crate::tags::lemma_footnote_element_style_no_reference(
                    items[k].children[0].text,
                );
            }
        }
    } else if n.rule == Rule::Xref {
        lemma_wf_note_unpack(n, false);
        let items = n.children.subrange(2, n.children.len() as int);
        lemma_lower_xref_items_pointwise(items);
        assert forall|k: int| 0 <= k < lower_xref_items(items).len() implies ((
        #[trigger] lower_xref_items(items)[k]) matches CrossRefElementView::Element(ne)
            ==> ne.style != crate::usfm::CrossRefElementStyle::Reference) by {
            assert(items[k] == n.children[k + 2]);
            lemma_wf_note_item_unpack(items[k], false);
            if items[k].rule != Rule::Ref {
                lemma_wf_note_elem_unpack(items[k], false);
                crate::tags::lemma_cross_ref_element_style_no_reference(
                    items[k].children[0].text,
                );
            }
        }
    }
}

/// Lowering a well-formed top-level entry never produces an unmapped note
/// element style.
#[verifier::rlimit(100)]
#[verifier::spinoff_prover]
proof fn lemma_book_item_preserves_styles(n: NodeView)
    requires
        wf_book_item(n),
    ensures
        crate::usfm::book_item_styles_ok(lower_book_item(n)),
{
    crate::grammar::lemma_wf_book_item_reveal(n);
    if n.rule == Rule::Para || n.rule == Rule::Poem || n.rule == Rule::ParaNum || n.rule
        == Rule::PoemNum {
        let off: int = if n.rule == Rule::Para || n.rule == Rule::Poem {
            1
        } else {
            2
        };
        let sub = n.children.subrange(off, n.children.len() as int);
        lemma_wf_body_unpack(sub, true);
        lemma_lower_para_items_pointwise(sub);
        assert forall|k: int| 0 <= k < lower_para_items(sub).len() implies
            crate::usfm::para_item_styles_ok(#[trigger] lower_para_items(sub)[k]) by {
            lemma_para_item_preserves_styles(sub[k], true);
        }
    } else if n.rule == Rule::Elem || n.rule == Rule::ElemNum {
        let off: int = if n.rule == Rule::Elem {
            1
        } else {
            2
        };
        let sub = n.children.subrange(off, n.children.len() as int);
        lemma_wf_body_unpack(sub, false);
        lemma_lower_elem_items_pointwise(sub);
        assert forall|k: int| 0 <= k < lower_elem_items(sub).len() implies
            crate::usfm::elem_item_styles_ok(#[trigger] lower_elem_items(sub)[k]) by {
            lemma_elem_item_preserves_styles(sub[k]);
        }
    }
}

/// Closed enumerations over whole documents: lowering a sequence of
/// well-formed top-level entries never produces a note element style outside
/// its tag table's image.
pub proof fn lemma_book_items_preserve_styles(s: Seq<NodeView>)
    requires
        forall|k: int| 0 <= k < s.len() ==> wf_book_item(#[trigger] s[k]),
    ensures
        forall|k: int|
            0 <= k < lower_book_items(s).len() ==> crate::usfm::book_item_styles_ok(
                #[trigger] lower_book_items(s)[k],
            ),
{
    lemma_lower_book_items(s);
    assert forall|k: int| 0 <= k < lower_book_items(s).len() implies
        crate::usfm::book_item_styles_ok(#[trigger] lower_book_items(s)[k]) by {
        lemma_book_item_preserves_styles(s[k]);
    }
}

/// Reads a base-ten number that fits a sixteen-bit integer.
pub fn parse_u16(s: &str) -> (r: u16)
    requires
        crate::grammar::is_digits(s@),
        dec_value(s@) <= 65535,
    ensures
        r == dec_value(s@),
{
    let len = s.unicode_len();
    let mut i: usize = 0;
    let mut val: u16 = 0;
    while i < len
        invariant
            i <= len,
            len == s@.len(),
            crate::grammar::is_digits(s@),
            dec_value(s@) <= 65535,
            val == dec_value(s@.subrange(0, i as int)),
        decreases len - i,
    {
        let c = s.get_char(i);
        proof {
            crate::grammar::lemma_dec_value_step(s@, i as int);
            crate::grammar::lemma_dec_value_prefix_le(s@, i as int + 1, s@.len() as int);
            assert(s@.subrange(0, s@.len() as int) =~= s@);
        }
        let d: u16 = ((c as u32) - ('0' as u32)) as u16;
        val = val * 10 + d;
        i += 1;
    }
    proof {
        assert(s@.subrange(0, s@.len() as int) =~= s@);
    }
    val
}

/// Reads a base-ten number that fits an eight-bit integer.
pub fn parse_u8(s: &str) -> (r: u8)
    requires
        crate::grammar::is_digits(s@),
        dec_value(s@) <= 255,
    ensures
        r == dec_value(s@),
{
    let len = s.unicode_len();
    let mut i: usize = 0;
    let mut val: u8 = 0;
    while i < len
        invariant
            i <= len,
            len == s@.len(),
            crate::grammar::is_digits(s@),
            dec_value(s@) <= 255,
            val == dec_value(s@.subrange(0, i as int)),
        decreases len - i,
    {
        let c = s.get_char(i);
        proof {
            crate::grammar::lemma_dec_value_step(s@, i as int);
            crate::grammar::lemma_dec_value_prefix_le(s@, i as int + 1, s@.len() as int);
            assert(s@.subrange(0, s@.len() as int) =~= s@);
        }
        let d: u8 = ((c as u32) - ('0' as u32)) as u8;
        val = val * 10 + d;
        i += 1;
    }
    proof {
        assert(s@.subrange(0, s@.len() as int) =~= s@);
    }
    val
}

/// Decodes one attribute node: a bare value becomes the implicit `lemma`
/// attribute, a named attribute becomes its name and value.
pub fn to_attribute(pair: &Node) -> (r: (String, String))
    requires
        wf_attrib_item(pair@),
    ensures
        (r.0@, r.1@) == lower_attrib(pair@),
{
    proof {
        lemma_node_seq_view(pair.children@);
    }
    match pair.rule {
        Rule::Value => {
            let key = String::from_str("lemma");
            proof {
                reveal_strlit("lemma");
            }
            (key, pair.text.clone())
        },
        _ => {
            let name = pair.children[0].text.clone();
            let value = pair.children[1].text.clone();
            (name, value)
        },
    }
}

/// Lowers a character span: its style from the tag table, its contents and
/// its decoded attributes partitioned from its children in source order.
fn to_character(pair: &Node) -> (r: Character)
    requires
        wf_character(pair@),
    ensures
        r@ == lower_character(pair@),
    decreases *pair, 0nat,
{
    proof {
        lemma_wf_character_unpack(pair@);
        lemma_node_seq_view(pair.children@);
    }
    let ty = to_character_type(pair.children[0].text.as_str());
    let mut contents: Vec<CharacterContents> = Vec::new();
    let mut attributes: Vec<(String, String)> = Vec::new();
    let mut i: usize = 1;
    proof {
        lemma_lower_char_empty();
        assert(pair@.children.subrange(1, 1) =~= Seq::<NodeView>::empty());
        assert(crate::usfm::character_contents_seq_view(contents@) =~= Seq::<
            CharacterContentsView,
        >::empty());
        assert(attributes.deep_view() =~= Seq::<(Seq<char>, Seq<char>)>::empty());
    }
    while i < pair.children.len()
        invariant
            1 <= i <= pair.children.len(),
            wf_character(pair@),
            pair@.children.len() == pair.children@.len(),
            forall|k: int|
                0 <= k < pair.children@.len() ==> #[trigger] pair@.children[k] == node_view(
                    pair.children@[k],
                ),
            forall|k: int|
                1 <= k < pair@.children.len() ==> {
                    if is_attrib_rule((#[trigger] pair@.children[k]).rule) {
                        wf_attrib_item(pair@.children[k])
                    } else {
                        wf_char_item(pair@.children[k])
                    }
                },
            crate::usfm::character_contents_seq_view(contents@) == lower_char_items(
                pair@.children.subrange(1, i as int),
            ),
            attributes.deep_view() == lower_attribs(pair@.children.subrange(1, i as int)),
        decreases pair.children.len() - i,
    {
        let child = &pair.children[i];
        let ghost sub = pair@.children.subrange(1, i as int);
        proof {
            assert(pair@.children.subrange(1, i as int + 1) =~= sub.push(pair@.children[i as int]));
            lemma_lower_char_snoc(sub, pair@.children[i as int]);
        }
        let is_attrib = match child.rule {
            Rule::Attrib => true,
            Rule::Value => true,
            _ => false,
        };
        if is_attrib {
            let ghost old_vec = attributes@;
            let ghost old_deep = attributes.deep_view();
            let a = to_attribute(child);
            attributes.push((a.0, a.1));
            proof {
                assert(attributes.deep_view() =~= old_deep.push((a.0@, a.1@))) by {
                    assert forall|k: int| 0 <= k < attributes@.len() implies
                        attributes.deep_view()[k] == old_deep.push((a.0@, a.1@))[k] by {
                        if k < old_vec.len() {
                            assert(attributes@[k] == old_vec[k]);
                        } else {
                            assert(attributes@[k] == (a.0, a.1));
                        }
                    }
                };
            }
        } else {
            let ghost old_contents = contents@;
            let c = to_character_contents(child);
            contents.push(c);
            proof {
                assert(contents@.drop_last() =~= old_contents);
                assert(crate::usfm::character_contents_seq_view(contents@)
                    == crate::usfm::character_contents_seq_view(old_contents).push(c@));
            }
        }
        i += 1;
    }
    let r = Character { ty, contents, attributes };
    proof {
        assert(pair@.children.subrange(1, pair@.children.len() as int) =~= pair@.children.subrange(
            1,
            i as int,
        ));
        lemma_lower_character(pair@);
    }
    r
}

/// Lowers one item of a character span: a text line or a nested span.
pub fn to_character_contents(pair: &Node) -> (r: CharacterContents)
    requires
        wf_char_item(pair@),
    ensures
        r@ == lower_char_item(pair@),
    decreases *pair, 1nat,
{
    proof {
        lemma_lower_char_item(pair@);
    }
    match pair.rule {
        Rule::Line => CharacterContents::Line(pair.text.clone()),
        _ => CharacterContents::Character(to_character(pair)),
    }
}

/// Lowers a reference node to its chapter, separator and verse.
fn to_note_reference(pair: &Node) -> (r: NoteReference)
    requires
        wf_reference(pair@),
    ensures
        r == lower_reference(pair@),
{
    proof {
        lemma_node_seq_view(pair.children@);
    }
    let chapter = parse_u16(pair.children[0].text.as_str());
    let separator = pair.children[1].text.as_str().get_char(0);
    let verse = parse_u16(pair.children[2].text.as_str());
    NoteReference { chapter, separator, verse }
}

/// Lowers the body of a note element.
fn to_note_contents(pair: &Node) -> (r: Vec<CharacterContents>)
    requires
        pair@.children.len() >= 1,
        forall|k: int| 1 <= k < pair@.children.len() ==> wf_char_item(#[trigger] pair@.children[k]),
    ensures
        crate::usfm::character_contents_seq_view(r@) == lower_char_items(
            pair@.children.subrange(1, pair@.children.len() as int),
        ),
{
    proof {
        lemma_node_seq_view(pair.children@);
    }
    let mut contents: Vec<CharacterContents> = Vec::new();
    let mut i: usize = 1;
    proof {
        lemma_lower_char_empty();
        assert(pair@.children.subrange(1, 1) =~= Seq::<NodeView>::empty());
        assert(crate::usfm::character_contents_seq_view(contents@) =~= Seq::<
            CharacterContentsView,
        >::empty());
    }
    while i < pair.children.len()
        invariant
            1 <= i <= pair.children.len(),
            pair@.children.len() == pair.children@.len(),
            forall|k: int|
                0 <= k < pair.children@.len() ==> #[trigger] pair@.children[k] == node_view(
                    pair.children@[k],
                ),
            forall|k: int|
                1 <= k < pair@.children.len() ==> wf_char_item(#[trigger] pair@.children[k]),
            crate::usfm::character_contents_seq_view(contents@) == lower_char_items(
                pair@.children.subrange(1, i as int),
            ),
        decreases pair.children.len() - i,
    {
        let child = &pair.children[i];
        let ghost sub = pair@.children.subrange(1, i as int);
        proof {
            assert(pair@.children.subrange(1, i as int + 1) =~= sub.push(pair@.children[i as int]));
            lemma_lower_char_snoc(sub, pair@.children[i as int]);
        }
        let ghost old_contents = contents@;
        let c = to_character_contents(child);
        contents.push(c);
        proof {
            assert(contents@.drop_last() =~= old_contents);
            assert(crate::usfm::character_contents_seq_view(contents@)
                == crate::usfm::character_contents_seq_view(old_contents).push(c@));
            assert(!is_attrib_rule(pair@.children[i as int].rule)) by {
                assert(wf_char_item(pair@.children[i as int]));
            }
        }
        i += 1;
    }
    proof {
        assert(pair@.children.subrange(1, pair@.children.len() as int) =~= pair@.children.subrange(
            1,
            i as int,
        ));
    }
    contents
}

/// Lowers one item of a footnote: a reference or a styled element.
pub fn to_footnote_element(pair: &Node) -> (r: FootnoteElement)
    requires
        wf_note_item(pair@, true),
    ensures
        r@ == lower_fnote_item(pair@),
{
    proof {
        lemma_wf_note_item_unpack(pair@, true);
        lemma_node_seq_view(pair.children@);
    }
    match pair.rule {
        Rule::Ref => FootnoteElement::Reference(to_note_reference(pair)),
        _ => {
            proof {
                lemma_wf_note_elem_unpack(pair@, true);
            }
            let style = to_footnote_element_style(pair.children[0].text.as_str());
            let contents = to_note_contents(pair);
            FootnoteElement::Element(NoteElement { style, contents })
        },
    }
}

/// Lowers one item of a cross-reference: a reference or a styled element.
pub fn to_cross_ref_element(pair: &Node) -> (r: CrossRefElement)
    requires
        wf_note_item(pair@, false),
    ensures
        r@ == lower_xref_item(pair@),
{
    proof {
        lemma_wf_note_item_unpack(pair@, false);
        lemma_node_seq_view(pair.children@);
    }
    match pair.rule {
        Rule::Ref => CrossRefElement::Reference(to_note_reference(pair)),
        _ => {
            proof {
                lemma_wf_note_elem_unpack(pair@, false);
            }
            let style = to_cross_ref_element_style(pair.children[0].text.as_str());
            let contents = to_note_contents(pair);
            CrossRefElement::Element(NoteElement { style, contents })
        },
    }
}

/// Lowers a footnote node.
fn to_footnote(pair: &Node) -> (r: Footnote)
    requires
        wf_note(pair@, true),
    ensures
        r@ == lower_footnote(pair@),
{
    proof {
        lemma_wf_note_unpack(pair@, true);
        lemma_node_seq_view(pair.children@);
    }
    let style = to_footnote_style(pair.children[0].text.as_str());
    let caller = to_caller(pair.children[1].text.as_str().get_char(0));
    let mut elements: Vec<FootnoteElement> = Vec::new();
    let mut i: usize = 2;
    proof {
        lemma_lower_note_snoc(Seq::<NodeView>::empty(), vstd::pervasive::arbitrary());
        assert(pair@.children.subrange(2, 2) =~= Seq::<NodeView>::empty());
        assert(elements.deep_view() =~= Seq::<FootnoteElementView>::empty());
    }
    while i < pair.children.len()
        invariant
            2 <= i <= pair.children.len(),
            pair@.children.len() == pair.children@.len(),
            forall|k: int|
                0 <= k < pair.children@.len() ==> #[trigger] pair@.children[k] == node_view(
                    pair.children@[k],
                ),
            forall|k: int|
                2 <= k < pair@.children.len() ==> wf_note_item(#[trigger] pair@.children[k], true),
            elements.deep_view() == lower_fnote_items(pair@.children.subrange(2, i as int)),
        decreases pair.children.len() - i,
    {
        let child = &pair.children[i];
        let ghost sub = pair@.children.subrange(2, i as int);
        proof {
            assert(pair@.children.subrange(2, i as int + 1) =~= sub.push(pair@.children[i as int]));
            lemma_lower_note_snoc(sub, pair@.children[i as int]);
        }
        let ghost old_vec = elements@;
        let ghost old_deep = elements.deep_view();
        let e = to_footnote_element(child);
        elements.push(e);
        proof {
            assert(elements.deep_view() =~= old_deep.push(elements@.last()@)) by {
                assert forall|k: int| 0 <= k < elements@.len() implies elements.deep_view()[k]
                    == old_deep.push(elements@.last()@)[k] by {
                    if k < old_vec.len() {
                        assert(elements@[k] == old_vec[k]);
                    }
                }
            };
        }
        i += 1;
    }
    proof {
        assert(pair@.children.subrange(2, pair@.children.len() as int) =~= pair@.children.subrange(
            2,
            i as int,
        ));
    }
    Footnote { style, caller, elements }
}

/// Lowers a cross-reference node.
fn to_cross_ref(pair: &Node) -> (r: CrossRef)
    requires
        wf_note(pair@, false),
    ensures
        r@ == lower_cross_ref(pair@),
{
    proof {
        lemma_wf_note_unpack(pair@, false);
        lemma_node_seq_view(pair.children@);
    }
    let style = to_cross_ref_style(pair.children[0].text.as_str());
    let caller = to_caller(pair.children[1].text.as_str().get_char(0));
    let mut elements: Vec<CrossRefElement> = Vec::new();
    let mut i: usize = 2;
    proof {
        lemma_lower_note_snoc(Seq::<NodeView>::empty(), vstd::pervasive::arbitrary());
        assert(pair@.children.subrange(2, 2) =~= Seq::<NodeView>::empty());
        assert(elements.deep_view() =~= Seq::<CrossRefElementView>::empty());
    }
    while i < pair.children.len()
        invariant
            2 <= i <= pair.children.len(),
            pair@.children.len() == pair.children@.len(),
            forall|k: int|
                0 <= k < pair.children@.len() ==> #[trigger] pair@.children[k] == node_view(
                    pair.children@[k],
                ),
            forall|k: int|
                2 <= k < pair@.children.len() ==> wf_note_item(#[trigger] pair@.children[k], false),
            elements.deep_view() == lower_xref_items(pair@.children.subrange(2, i as int)),
        decreases pair.children.len() - i,
    {
        let child = &pair.children[i];
        let ghost sub = pair@.children.subrange(2, i as int);
        proof {
            assert(pair@.children.subrange(2, i as int + 1) =~= sub.push(pair@.children[i as int]));
            lemma_lower_note_snoc(sub, pair@.children[i as int]);
        }
        let ghost old_vec = elements@;
        let ghost old_deep = elements.deep_view();
        let e = to_cross_ref_element(child);
        elements.push(e);
        proof {
            assert(elements.deep_view() =~= old_deep.push(elements@.last()@)) by {
                assert forall|k: int| 0 <= k < elements@.len() implies elements.deep_view()[k]
                    == old_deep.push(elements@.last()@)[k] by {
                    if k < old_vec.len() {
                        assert(elements@[k] == old_vec[k]);
                    }
                }
            };
        }
        i += 1;
    }
    proof {
        assert(pair@.children.subrange(2, pair@.children.len() as int) =~= pair@.children.subrange(
            2,
            i as int,
        ));
    }
    CrossRef { style, caller, elements }
}

/// Lowers one item of a paragraph or poetry body.
pub fn to_paragraph_contents(pair: &Node) -> (r: ParagraphContents)
    requires
        wf_body_item(pair@, true),
    ensures
        r@ == lower_para_item(pair@),
{
    proof {
        crate::grammar::lemma_wf_body_item_unpack(pair@, true);
        lemma_node_seq_view(pair.children@);
        lemma_lower_char_item(pair@);
    }
    match pair.rule {
        Rule::Verse => ParagraphContents::Verse(parse_u16(pair.children[0].text.as_str())),
        Rule::Line => ParagraphContents::Line(pair.text.clone()),
        Rule::Char => ParagraphContents::Character(to_character(pair)),
        Rule::Foot => ParagraphContents::Footnote(to_footnote(pair)),
        _ => ParagraphContents::CrossRef(to_cross_ref(pair)),
    }
}

/// Lowers one item of an element body.
pub fn to_element_contents(pair: &Node) -> (r: ElementContents)
    requires
        wf_body_item(pair@, false),
    ensures
        r@ == lower_elem_item(pair@),
{
    proof {
        crate::grammar::lemma_wf_body_item_unpack(pair@, false);
        lemma_node_seq_view(pair.children@);
        lemma_lower_char_item(pair@);
    }
    match pair.rule {
        Rule::Line => ElementContents::Line(pair.text.clone()),
        Rule::Char => ElementContents::Character(to_character(pair)),
        Rule::Foot => ElementContents::Footnote(to_footnote(pair)),
        _ => ElementContents::CrossRef(to_cross_ref(pair)),
    }
}

/// Lowers a container body into paragraph or poetry contents.
fn to_para_body(pair: &Node, off: usize) -> (r: Vec<ParagraphContents>)
    requires
        off <= pair@.children.len(),
        forall|k: int|
            off <= k < pair@.children.len() ==> wf_body_item(#[trigger] pair@.children[k], true),
    ensures
        r.deep_view() == lower_para_items(
            pair@.children.subrange(off as int, pair@.children.len() as int),
        ),
{
    proof {
        lemma_node_seq_view(pair.children@);
    }
    let mut contents: Vec<ParagraphContents> = Vec::new();
    let mut i: usize = off;
    proof {
        lemma_lower_body_snoc(Seq::<NodeView>::empty(), vstd::pervasive::arbitrary());
        assert(pair@.children.subrange(off as int, off as int) =~= Seq::<NodeView>::empty());
        assert(contents.deep_view() =~= Seq::<ParagraphContentsView>::empty());
    }
    while i < pair.children.len()
        invariant
            off <= i <= pair.children.len(),
            pair@.children.len() == pair.children@.len(),
            forall|k: int|
                0 <= k < pair.children@.len() ==> #[trigger] pair@.children[k] == node_view(
                    pair.children@[k],
                ),
            forall|k: int|
                off <= k < pair@.children.len() ==> wf_body_item(
                    #[trigger] pair@.children[k],
                    true,
                ),
            contents.deep_view() == lower_para_items(
                pair@.children.subrange(off as int, i as int),
            ),
        decreases pair.children.len() - i,
    {
        let child = &pair.children[i];
        let ghost sub = pair@.children.subrange(off as int, i as int);
        proof {
            assert(pair@.children.subrange(off as int, i as int + 1) =~= sub.push(
                pair@.children[i as int],
            ));
            lemma_lower_body_snoc(sub, pair@.children[i as int]);
        }
        let ghost old_vec = contents@;
        let ghost old_deep = contents.deep_view();
        let c = to_paragraph_contents(child);
        contents.push(c);
        proof {
            assert(contents.deep_view() =~= old_deep.push(contents@.last()@)) by {
                assert forall|k: int| 0 <= k < contents@.len() implies contents.deep_view()[k]
                    == old_deep.push(contents@.last()@)[k] by {
                    if k < old_vec.len() {
                        assert(contents@[k] == old_vec[k]);
                    }
                }
            };
        }
        i += 1;
    }
    contents
}

/// Lowers a container body into element contents.
fn to_elem_body(pair: &Node, off: usize) -> (r: Vec<ElementContents>)
    requires
        off <= pair@.children.len(),
        forall|k: int|
            off <= k < pair@.children.len() ==> wf_body_item(#[trigger] pair@.children[k], false),
    ensures
        r.deep_view() == lower_elem_items(
            pair@.children.subrange(off as int, pair@.children.len() as int),
        ),
{
    proof {
        lemma_node_seq_view(pair.children@);
    }
    let mut contents: Vec<ElementContents> = Vec::new();
    let mut i: usize = off;
    proof {
        lemma_lower_body_snoc(Seq::<NodeView>::empty(), vstd::pervasive::arbitrary());
        assert(pair@.children.subrange(off as int, off as int) =~= Seq::<NodeView>::empty());
        assert(contents.deep_view() =~= Seq::<ElementContentsView>::empty());
    }
    while i < pair.children.len()
        invariant
            off <= i <= pair.children.len(),
            pair@.children.len() == pair.children@.len(),
            forall|k: int|
                0 <= k < pair.children@.len() ==> #[trigger] pair@.children[k] == node_view(
                    pair.children@[k],
                ),
            forall|k: int|
                off <= k < pair@.children.len() ==> wf_body_item(
                    #[trigger] pair@.children[k],
                    false,
                ),
            contents.deep_view() == lower_elem_items(
                pair@.children.subrange(off as int, i as int),
            ),
        decreases pair.children.len() - i,
    {
        let child = &pair.children[i];
        let ghost sub = pair@.children.subrange(off as int, i as int);
        proof {
            assert(pair@.children.subrange(off as int, i as int + 1) =~= sub.push(
                pair@.children[i as int],
            ));
            lemma_lower_body_snoc(sub, pair@.children[i as int]);
        }
        let ghost old_vec = contents@;
        let ghost old_deep = contents.deep_view();
        let c = to_element_contents(child);
        contents.push(c);
        proof {
            assert(contents.deep_view() =~= old_deep.push(contents@.last()@)) by {
                assert forall|k: int| 0 <= k < contents@.len() implies contents.deep_view()[k]
                    == old_deep.push(contents@.last()@)[k] by {
                    if k < old_vec.len() {
                        assert(contents@[k] == old_vec[k]);
                    }
                }
            };
        }
        i += 1;
    }
    contents
}

/// The items of a container body, read off the body.
proof fn lemma_body_items_of(c: Seq<NodeView>, off: int, verses: bool)
    requires
        0 <= off <= c.len(),
        wf_body(c.subrange(off, c.len() as int), verses),
    ensures
        forall|k: int| off <= k < c.len() ==> wf_body_item(#[trigger] c[k], verses),
{
    lemma_wf_body_unpack(c.subrange(off, c.len() as int), verses);
    assert forall|k: int| off <= k < c.len() implies wf_body_item(#[trigger] c[k], verses) by {
        assert(c[k] == c.subrange(off, c.len() as int)[k - off]);
    }
}

/// Lowers one top-level entry.
pub fn to_book_contents(pair: &Node) -> (r: BookContents)
    requires
        wf_book_item(pair@),
    ensures
        r@ == lower_book_item(pair@),
        pair@.rule == Rule::Id ==> r is Id,
{
    proof {
        crate::grammar::lemma_wf_book_item_reveal(pair@);
        lemma_node_seq_view(pair.children@);
    }
    match pair.rule {
        Rule::Id => BookContents::Id {
            code: to_book_identifier(pair.children[0].text.as_str()),
            text: pair.children[1].text.clone(),
        },
        Rule::Usfm => BookContents::Usfm(pair.children[0].text.clone()),
        Rule::Ide => BookContents::Encoding(to_book_encoding(pair.children[0].text.as_str())),
        Rule::Sts => BookContents::Status(parse_u16(pair.children[0].text.as_str())),
        Rule::Chap => BookContents::Chapter(parse_u16(pair.children[0].text.as_str())),
        Rule::ChapAlt => BookContents::AltChapter(parse_u16(pair.children[0].text.as_str())),
        Rule::Para => {
            proof {
                lemma_body_items_of(pair@.children, 1, true);
            }
            let style = to_paragraph_style(pair.children[0].text.as_str());
            let contents = to_para_body(pair, 1);
            BookContents::Paragraph(Paragraph { style, contents })
        },
        Rule::ParaNum => {
            proof {
                lemma_body_items_of(pair@.children, 2, true);
            }
            let level = parse_u8(pair.children[1].text.as_str());
            let style = to_numbered_paragraph_style(pair.children[0].text.as_str(), level);
            let contents = to_para_body(pair, 2);
            BookContents::Paragraph(Paragraph { style, contents })
        },
        Rule::Poem => {
            proof {
                lemma_body_items_of(pair@.children, 1, true);
            }
            let style = to_poetry_style(pair.children[0].text.as_str());
            let contents = to_para_body(pair, 1);
            BookContents::Poetry(Poetry { style, contents })
        },
        Rule::PoemNum => {
            proof {
                lemma_body_items_of(pair@.children, 2, true);
            }
            let level = parse_u8(pair.children[1].text.as_str());
            let style = to_numbered_poetry_style(pair.children[0].text.as_str(), level);
            let contents = to_para_body(pair, 2);
            BookContents::Poetry(Poetry { style, contents })
        },
        Rule::Elem => {
            proof {
                lemma_body_items_of(pair@.children, 1, false);
            }
            let ty = to_element_type(pair.children[0].text.as_str());
            let contents = to_elem_body(pair, 1);
            BookContents::Element(Element { ty, contents })
        },
        Rule::ElemNum => {
            proof {
                lemma_body_items_of(pair@.children, 2, false);
            }
            let level = parse_u8(pair.children[1].text.as_str());
            let ty = to_numbered_element_type(pair.children[0].text.as_str(), level);
            let contents = to_elem_body(pair, 2);
            BookContents::Element(Element { ty, contents })
        },
        _ => BookContents::Empty(to_empty_type(pair.children[0].text.as_str())),
    }
}

/// A lowered entry is an identification entry exactly when its node is.
pub proof fn lemma_lower_book_item_id(n: NodeView)
    requires
        wf_book_item(n),
    ensures
        lower_book_item(n) is Id <==> n.rule == Rule::Id,
{
    crate::grammar::lemma_wf_book_item_reveal(n);
}

/// Lowers a whole rule tree into a document; the entries keep their order.
pub fn to_book(pairs: &Vec<Node>) -> (r: Book)
    requires
        forall|k: int| 0 <= k < pairs@.len() ==> wf_book_item(#[trigger] node_seq_view(pairs@)[k]),
    ensures
        r@.contents == lower_book_items(node_seq_view(pairs@)),
        r@.contents.len() == pairs@.len(),
        forall|k: int|
            0 <= k < pairs@.len() ==> r@.contents[k] == lower_book_item(
                #[trigger] node_seq_view(pairs@)[k],
            ),
        forall|k: int|
            0 <= k < pairs@.len() ==> ((#[trigger] r@.contents[k]) is Id <==> node_seq_view(
                pairs@,
            )[k].rule == Rule::Id),
{
    proof {
        lemma_node_seq_view(pairs@);
    }
    let mut contents: Vec<BookContents> = Vec::new();
    let mut i: usize = 0;
    proof {
        lemma_lower_book_snoc(Seq::<NodeView>::empty(), vstd::pervasive::arbitrary());
        assert(node_seq_view(pairs@).subrange(0, 0) =~= Seq::<NodeView>::empty());
        assert(contents.deep_view() =~= Seq::<BookContentsView>::empty());
    }
    while i < pairs.len()
        invariant
            i <= pairs.len(),
            pairs@.len() == node_seq_view(pairs@).len(),
            forall|k: int|
                0 <= k < pairs@.len() ==> #[trigger] node_seq_view(pairs@)[k] == node_view(
                    pairs@[k],
                ),
            forall|k: int|
                0 <= k < pairs@.len() ==> wf_book_item(#[trigger] node_seq_view(pairs@)[k]),
            contents.deep_view() == lower_book_items(node_seq_view(pairs@).subrange(0, i as int)),
        decreases pairs.len() - i,
    {
        let child = &pairs[i];
        let ghost sub = node_seq_view(pairs@).subrange(0, i as int);
        proof {
            assert(node_seq_view(pairs@).subrange(0, i as int + 1) =~= sub.push(
                node_seq_view(pairs@)[i as int],
            ));
            lemma_lower_book_snoc(sub, node_seq_view(pairs@)[i as int]);
        }
        let ghost old_vec = contents@;
        let ghost old_deep = contents.deep_view();
        let c = to_book_contents(child);
        contents.push(c);
        proof {
            assert(contents.deep_view() =~= old_deep.push(contents@.last()@)) by {
                assert forall|k: int| 0 <= k < contents@.len() implies contents.deep_view()[k]
                    == old_deep.push(contents@.last()@)[k] by {
                    if k < old_vec.len() {
                        assert(contents@[k] == old_vec[k]);
                    }
                }
            };
        }
        i += 1;
    }
    let r = Book { contents };
    proof {
        assert(node_seq_view(pairs@).subrange(0, node_seq_view(pairs@).len() as int)
            =~= node_seq_view(pairs@));
        lemma_lower_book_items(node_seq_view(pairs@));
        assert forall|k: int| 0 <= k < pairs@.len() implies ((#[trigger] r@.contents[k]) is Id
            <==> node_seq_view(pairs@)[k].rule == Rule::Id) by {
            lemma_lower_book_item_id(node_seq_view(pairs@)[k]);
        }
    }
    r
}

} // verus!
