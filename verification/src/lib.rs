//! A verified parser for USFM (Unified Standard Format Markers), the
//! backslash-tagged markup used for scripture texts.
//!
//! The crate is split in two stages. The grammar engine in [`grammar`]
//! recognises the marker language and produces a tree of rule-tagged nodes,
//! every one of which is proved well formed; the lowering in [`parser`]
//! turns that tree into the typed document model of [`usfm`], rooted at
//! [`usfm::Book`], and is proved to compute exactly the spec-level lowering
//! of the tree.

pub mod grammar;
pub mod parser;
pub mod tags;
pub mod usfm;

pub use grammar::{scan_book, Node, NodeView, ParseError, Rule};
pub use parser::{
    parse_u16, parse_u8, to_attribute, to_book, to_book_contents, to_character_contents,
    to_cross_ref_element, to_element_contents, to_footnote_element, to_paragraph_contents,
};
pub use tags::{
    to_book_encoding, to_book_identifier, to_caller, to_character_type,
    to_cross_ref_element_style, to_cross_ref_style, to_element_type, to_empty_type,
    to_footnote_element_style, to_footnote_style, to_numbered_element_type,
    to_numbered_paragraph_style, to_numbered_poetry_style, to_paragraph_style, to_poetry_style,
};
pub use usfm::{
    Book, BookContents, BookEncoding, BookIdentifier, Caller, Character, CharacterContents,
    CharacterType, CrossRef, CrossRefElement, CrossRefElementStyle, CrossRefStyle, Element,
    ElementContents, ElementType, EmptyType, Footnote, FootnoteElement, FootnoteElementStyle,
    FootnoteStyle, NoteElement, NoteReference, Paragraph, ParagraphContents, ParagraphStyle,
    Poetry, PoetryStyle,
};

use vstd::prelude::*;

verus! {

broadcast use grammar::lemma_node_view;

/// Parses a whole source text into a document.
///
/// On success the document's first and only identification entry stands at
/// the front, and it is fixed by the input text: its code and its text are
/// the code token and the rest of the identification line as
/// [`grammar::id_code_of`] and [`grammar::id_text_of`] read them off the
/// input. The remaining contents are exactly the lowering of the recognised
/// rule tree, as [`parser::to_book`] states; when nothing but whitespace
/// follows the identification line, the document is that single entry.
/// Because success implies
/// [`grammar::id_head_ok`], every input that does not open with a
/// well-formed identification entry is rejected; text maximality holds of
/// the whole result, as [`usfm::book_lines_ok`] states: nowhere in the tree
/// is a text line empty or beside another text line; and every note element
/// style is drawn from its tag table, as [`usfm::book_styles_ok`] states.
/// Any rejection carries a
/// diagnostic with the position where recognition failed and what was
/// expected there, and no document is returned.
pub fn parse(input: &str) -> (r: Result<Book, ParseError>)
    ensures
        r matches Ok(book) ==> {
            &&& book@.contents.len() >= 1
            &&& book@.contents[0] is Id
            &&& forall|k: int| 1 <= k < book@.contents.len() ==> !((#[trigger] book@.contents[k])
                is Id)
            &&& grammar::id_head_ok(input@)
            &&& book@.contents[0] == (usfm::BookContentsView::Id {
                code: tags::book_identifier_of(grammar::id_code_of(input@)).unwrap(),
                text: grammar::id_text_of(input@),
            })
            &&& (grammar::spec_skip_blank(input@, grammar::id_end(input@)) == input@.len()
                ==> book@.contents.len() == 1)
            &&& usfm::book_lines_ok(book@)
            &&& usfm::book_styles_ok(book@)
        },
{
    let nodes = match grammar::scan_book(input) {
        Ok(v) => v,
        Err(e) => {
            return Err(e);
        },
    };
    let book = parser::to_book(&nodes);
    proof {
        parser::lemma_book_items_preserve_lines(grammar::node_seq_view(nodes@));
        assert(usfm::book_lines_ok(book@));
        parser::lemma_book_items_preserve_styles(grammar::node_seq_view(nodes@));
        assert(usfm::book_styles_ok(book@));
        let n0 = grammar::node_seq_view(nodes@)[0];
        assert(book@.contents[0] == parser::lower_book_item(n0));
        assert(parser::lower_book_item(n0) == (usfm::BookContentsView::Id {
            code: tags::book_identifier_of(n0.children[0].text).unwrap(),
            text: n0.children[1].text,
        }));
    }
    Ok(book)
}

} // verus!
