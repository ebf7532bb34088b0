//! The grammar engine: a recursive-descent recogniser for the marker
//! language. It produces a tree of rule-tagged [`Node`]s holding the matched
//! text, and every tree it returns is proved well-formed in the sense of
//! [`wf_book_item`], which is exactly what the lowering in [`crate::parser`]
//! requires.
//!
//! Deterministic reading of the language:
//! - A text line absorbs characters up to the next backslash or the end of
//!   input; a single newline directly before a marker or the end of input is
//!   consumed but kept out of the line, as is a single newline directly after
//!   a marker head, so no empty line is ever produced.
//! - A note without its explicit closer is closed by the next marker that is
//!   neither a note element nor a reference, or by the end of input.
//! - Inside a note body, a tag that names both a note element style and a
//!   character style reads as a note element.

use vstd::prelude::*;
use crate::tags::{
    book_encoding_of, book_identifier_of, character_type_of, cross_ref_element_style_of,
    cross_ref_style_of, element_type_of, empty_type_of, footnote_element_style_of,
    footnote_style_of, numbered_element_type_of, numbered_paragraph_style_of,
    numbered_poetry_style_of, paragraph_style_of, poetry_style_of, try_book_encoding,
    try_book_identifier, try_character_type, try_cross_ref_element_style, try_cross_ref_style,
    try_element_type, try_empty_type, try_footnote_element_style, try_footnote_style,
    try_numbered_element_type, try_numbered_paragraph_style, try_numbered_poetry_style,
    str_eq, try_paragraph_style, try_poetry_style,
};

verus! {

/// The grammar rule a tree node was produced by.
#[derive(Debug, Clone, Copy, PartialEq, Eq, Structural)]
pub enum Rule {
    /// The identification entry that opens a document.
    Id,
    /// A version entry.
    Usfm,
    /// An encoding entry.
    Ide,
    /// A status entry.
    Sts,
    /// A chapter entry.
    Chap,
    /// An alternate chapter entry.
    ChapAlt,
    /// An unnumbered paragraph container.
    Para,
    /// A numbered paragraph container.
    ParaNum,
    /// An unnumbered poetry container.
    Poem,
    /// A numbered poetry container.
    PoemNum,
    /// An unnumbered element container.
    Elem,
    /// A numbered element container.
    ElemNum,
    /// A contentless marker.
    Empty,
    /// A verse marker.
    Verse,
    /// A run of text.
    Line,
    /// A character span.
    Char,
    /// A nested character span.
    CharNested,
    /// A footnote.
    Foot,
    /// A cross-reference.
    Xref,
    /// A `chapter:verse` reference inside a note.
    Ref,
    /// A styled note element.
    NoteElem,
    /// A named attribute of a character span.
    Attrib,
    /// A bare attribute value of a character span.
    Value,
    /// A marker tag.
    Tag,
    /// A digit run.
    Num,
    /// A note caller symbol.
    CallerSym,
    /// The separator of a reference.
    Sep,
    /// The free text of a header entry.
    Text,
    /// The name of a named attribute.
    Name,
}

/// One node of the rule tree: the rule that matched, the text of the matched
/// span that the lowering reads, and the sub-matches in source order.
#[derive(Debug)]
pub struct Node {
    pub rule: Rule,
    pub text: String,
    pub children: Vec<Node>,
}

/// The view of a [`Node`].
#[verifier::ext_equal]
pub struct NodeView {
    pub rule: Rule,
    pub text: Seq<char>,
    pub children: Seq<NodeView>,
}

/// The view of a sequence of nodes. Opaque: proofs read it through
/// [`lemma_node_seq_view`] and [`lemma_seq_view_push`].
#[verifier::opaque]
pub open spec fn node_seq_view(s: Seq<Node>) -> Seq<NodeView>
    decreases s, 0nat,
{
    if s.len() == 0 {
        Seq::empty()
    } else {
        node_seq_view(s.drop_last()).push(node_view(s.last()))
    }
}

/// The view of a node.
#[verifier::opaque]
pub open spec fn node_view(n: Node) -> NodeView
    decreases n, 1nat,
{
    NodeView { rule: n.rule, text: n.text@, children: node_seq_view(n.children@) }
}

/// What the view of a node is, field by field; in force everywhere.
pub broadcast proof fn lemma_node_view(n: Node)
    ensures
        #[trigger] node_view(n) == (NodeView {
            rule: n.rule,
            text: n.text@,
            children: node_seq_view(n.children@),
        }),
{
    reveal(node_view);
    reveal(node_seq_view);
}

/// The view of a sequence of nodes is pointwise the view of its nodes.
pub proof fn lemma_node_seq_view(s: Seq<Node>)
    ensures
        node_seq_view(s).len() == s.len(),
        forall|i: int| 0 <= i < s.len() ==> node_seq_view(s)[i] == node_view(s[i]),
    decreases s,
{
    reveal(node_view);
    reveal(node_seq_view);
    if s.len() > 0 {
        lemma_node_seq_view(s.drop_last());
    }
}

impl View for Node {
    type V = NodeView;

    open spec fn view(&self) -> NodeView {
        node_view(*self)
    }
}

impl DeepView for Node {
    type V = NodeView;

    open spec fn deep_view(&self) -> NodeView {
        self.view()
    }
}

/// Whether a character is a decimal digit.
pub open spec fn is_digit(c: char) -> bool {
    '0' <= c && c <= '9'
}

/// The value of a decimal digit.
pub open spec fn digit_val(c: char) -> nat {
    (c as nat - '0' as nat) as nat
}

/// Whether a text is a non-empty run of decimal digits.
pub open spec fn is_digits(s: Seq<char>) -> bool {
    s.len() > 0 && forall|i: int| 0 <= i < s.len() ==> is_digit(#[trigger] s[i])
}

/// The number a run of decimal digits denotes, read in base ten.
pub open spec fn dec_value(s: Seq<char>) -> nat
    decreases s.len(),
{
    if s.len() == 0 {
        0
    } else {
        dec_value(s.drop_last()) * 10 + digit_val(s.last())
    }
}

/// A digit run never denotes less than any of its prefixes.
pub proof fn lemma_dec_value_prefix_le(s: Seq<char>, i: int, j: int)
    requires
        0 <= i <= j <= s.len(),
    ensures
        dec_value(s.subrange(0, i)) <= dec_value(s.subrange(0, j)),
    decreases j - i,
{
    if i < j {
        lemma_dec_value_prefix_le(s, i, j - 1);
        assert(s.subrange(0, j).drop_last() =~= s.subrange(0, j - 1));
    }
}

/// Extending a digit run by one digit multiplies its value by ten and adds
/// the digit.
pub proof fn lemma_dec_value_step(s: Seq<char>, i: int)
    requires
        0 <= i < s.len(),
    ensures
        dec_value(s.subrange(0, i + 1)) == dec_value(s.subrange(0, i)) * 10 + digit_val(s[i]),
{
    assert(s.subrange(0, i + 1).drop_last() =~= s.subrange(0, i));
    assert(s.subrange(0, i + 1).last() == s[i]);
}

/// Whether a character is horizontal or vertical whitespace.
pub open spec fn is_blank_char(c: char) -> bool {
    c == ' ' || c == '\t' || c == '\n' || c == '\r'
}

/// Whether a character is a space or tab.
pub open spec fn is_space_char(c: char) -> bool {
    c == ' ' || c == '\t'
}

/// Whether a character is a lowercase tag letter.
pub open spec fn is_tag_letter(c: char) -> bool {
    'a' <= c && c <= 'z'
}

/// The position after the run of whitespace starting at `pos`.
pub open spec fn spec_skip_blank(s: Seq<char>, pos: int) -> int
    decreases s.len() - pos,
{
    if 0 <= pos && pos < s.len() && is_blank_char(s[pos]) {
        spec_skip_blank(s, pos + 1)
    } else {
        pos
    }
}

/// Skipping whitespace lands on a position that skipping leaves alone.
pub proof fn lemma_skip_blank_idem(s: Seq<char>, pos: int)
    ensures
        spec_skip_blank(s, spec_skip_blank(s, pos)) == spec_skip_blank(s, pos),
    decreases s.len() - pos,
{
    if 0 <= pos && pos < s.len() && is_blank_char(s[pos]) {
        lemma_skip_blank_idem(s, pos + 1);
    }
}

/// The position after the run of spaces and tabs starting at `pos`.
pub open spec fn spec_skip_spaces(s: Seq<char>, pos: int) -> int
    decreases s.len() - pos,
{
    if 0 <= pos && pos < s.len() && is_space_char(s[pos]) {
        spec_skip_spaces(s, pos + 1)
    } else {
        pos
    }
}

/// Where the token starting at `pos` ends: at the first whitespace or
/// backslash, or at the end of input.
pub open spec fn spec_token_end(s: Seq<char>, pos: int) -> int
    decreases s.len() - pos,
{
    if 0 <= pos && pos < s.len() && !is_blank_char(s[pos]) && s[pos] != '\\' {
        spec_token_end(s, pos + 1)
    } else {
        pos
    }
}

/// Where the current line ends: at the first newline, or at the end of
/// input.
pub open spec fn spec_line_end(s: Seq<char>, pos: int) -> int
    decreases s.len() - pos,
{
    if 0 <= pos && pos < s.len() && s[pos] != '\n' {
        spec_line_end(s, pos + 1)
    } else {
        pos
    }
}

/// Where the run of tag letters starting at `pos` ends.
pub open spec fn spec_letters_end(s: Seq<char>, pos: int) -> int
    decreases s.len() - pos,
{
    if 0 <= pos && pos < s.len() && is_tag_letter(s[pos]) {
        spec_letters_end(s, pos + 1)
    } else {
        pos
    }
}

/// Where the identification code of a document starts: after any leading
/// whitespace, the identification marker, and the spaces that follow it.
pub open spec fn id_code_start(s: Seq<char>) -> int {
    spec_skip_spaces(s, spec_skip_blank(s, 0) + 3)
}

/// The identification code of a document: the token after the
/// identification marker.
pub open spec fn id_code_of(s: Seq<char>) -> Seq<char> {
    s.subrange(id_code_start(s), spec_token_end(s, id_code_start(s)))
}

/// Where the identification text of a document starts: after the code and
/// the spaces that follow it.
pub open spec fn id_text_start(s: Seq<char>) -> int {
    spec_skip_spaces(s, spec_token_end(s, id_code_start(s)))
}

/// The identification text of a document: the rest of the line after the
/// code.
pub open spec fn id_text_of(s: Seq<char>) -> Seq<char> {
    s.subrange(id_text_start(s), spec_line_end(s, id_text_start(s)))
}

/// The position just after the identification line: past its terminating
/// newline, or the end of input when none follows.
pub open spec fn id_end(s: Seq<char>) -> int {
    if spec_line_end(s, id_text_start(s)) < s.len() {
        spec_line_end(s, id_text_start(s)) + 1
    } else {
        spec_line_end(s, id_text_start(s))
    }
}

/// Whether a source text opens with a well-formed identification entry:
/// after any leading whitespace, a backslash, the bare tag `id` with no
/// numeric suffix and no closing star, and a non-empty code that the book
/// table knows. Every successful parse starts this way; any input that does
/// not is rejected.
pub open spec fn id_head_ok(s: Seq<char>) -> bool {
    let p = spec_skip_blank(s, 0);
    &&& p < s.len()
    &&& s[p] == '\\'
    &&& spec_letters_end(s, p + 1) == p + 3
    &&& s.subrange(p + 1, p + 3) == "id"@
    &&& !(p + 3 < s.len() && is_digit(s[p + 3]))
    &&& !(p + 3 < s.len() && s[p + 3] == '*')
    &&& spec_token_end(s, id_code_start(s)) > id_code_start(s)
    &&& book_identifier_of(id_code_of(s)) is Some
}

/// Whether a rule belongs to the attribute block of a character span.
pub open spec fn is_attrib_rule(r: Rule) -> bool {
    r == Rule::Attrib || r == Rule::Value
}

/// Whether a node is a leaf of the given rule.
pub open spec fn wf_leaf(n: NodeView, r: Rule) -> bool {
    n.rule == r && n.children.len() == 0
}

/// Whether a node is a digit-run leaf whose value is at most `max`.
pub open spec fn wf_num(n: NodeView, max: nat) -> bool {
    wf_leaf(n, Rule::Num) && is_digits(n.text) && dec_value(n.text) <= max
}

/// Whether no two adjacent nodes are both text lines.
pub open spec fn lines_separated(s: Seq<NodeView>) -> bool {
    forall|i: int|
        0 <= i && i + 1 < s.len() ==> !(#[trigger] s[i].rule == Rule::Line && s[i + 1].rule
            == Rule::Line)
}

/// Whether an attribute node is followed only by attribute nodes, so that
/// the attribute block stands at the end.
pub open spec fn attribs_at_end(s: Seq<NodeView>) -> bool {
    forall|i: int|
        0 <= i && i + 1 < s.len() && is_attrib_rule(#[trigger] s[i].rule) ==> is_attrib_rule(
            s[i + 1].rule,
        )
}

/// Whether a node is a well-formed attribute of a character span: a named
/// attribute with its name and value, or a bare value.
pub open spec fn wf_attrib_item(n: NodeView) -> bool {
    ||| (n.rule == Rule::Attrib && n.children.len() == 2 && wf_leaf(n.children[0], Rule::Name)
        && wf_leaf(n.children[1], Rule::Value))
    ||| wf_leaf(n, Rule::Value)
}

/// Whether a node is a well-formed text line: a non-empty leaf.
pub open spec fn wf_line(n: NodeView) -> bool {
    wf_leaf(n, Rule::Line) && n.text.len() > 0
}

/// Whether a node is a well-formed character span, spelled out as one
/// recursive predicate: a known style tag, then text lines, nested character
/// spans and attribute items, the attributes last, with no two adjacent
/// lines. Opaque: proofs go through [`lemma_wf_character_intro`] and the
/// transparent wrappers below.
#[verifier::opaque]
pub open spec fn wf_char_tree(n: NodeView) -> bool
    decreases n,
{
    &&& n.children.len() >= 1
    &&& wf_leaf(n.children[0], Rule::Tag)
    &&& character_type_of(n.children[0].text) is Some
    &&& forall|k: int|
        1 <= k < n.children.len() ==> {
            if is_attrib_rule((#[trigger] n.children[k]).rule) {
                wf_attrib_item(n.children[k])
            } else {
                ||| wf_line(n.children[k])
                ||| ((n.children[k].rule == Rule::Char || n.children[k].rule == Rule::CharNested)
                    && wf_char_tree(n.children[k]))
            }
        }
    &&& attribs_at_end(n.children.subrange(1, n.children.len() as int))
    &&& lines_separated(n.children.subrange(1, n.children.len() as int))
}

/// Whether a node is a well-formed character span.
pub open spec fn wf_character(n: NodeView) -> bool {
    wf_char_tree(n)
}

/// Whether a node is a well-formed item of a character span: a text line or
/// a nested character span.
pub open spec fn wf_char_item(n: NodeView) -> bool {
    ||| wf_line(n)
    ||| ((n.rule == Rule::Char || n.rule == Rule::CharNested) && wf_character(n))
}

/// Whether a sequence of nodes is a well-formed character-span body.
pub open spec fn wf_char_body(s: Seq<NodeView>) -> bool {
    &&& forall|i: int|
        0 <= i < s.len() ==> {
            if is_attrib_rule((#[trigger] s[i]).rule) {
                wf_attrib_item(s[i])
            } else {
                wf_char_item(s[i])
            }
        }
    &&& attribs_at_end(s)
    &&& lines_separated(s)
}

/// Whether a node is a well-formed reference: two numbers that fit a
/// sixteen-bit integer around a single-character separator.
pub open spec fn wf_reference(n: NodeView) -> bool {
    &&& n.rule == Rule::Ref
    &&& n.children.len() == 3
    &&& wf_num(n.children[0], 65535)
    &&& wf_leaf(n.children[1], Rule::Sep)
    &&& n.children[1].text.len() == 1
    &&& wf_num(n.children[2], 65535)
}

/// Whether a node is a well-formed note element of a footnote (`foot` true)
/// or of a cross-reference (`foot` false): a known style tag, then lines and
/// nested character spans with no two adjacent lines.
#[verifier::opaque]
pub open spec fn wf_note_elem(n: NodeView, foot: bool) -> bool
    decreases n, 3nat,
{
    &&& n.rule == Rule::NoteElem
    &&& n.children.len() >= 1
    &&& wf_leaf(n.children[0], Rule::Tag)
    &&& if foot {
        footnote_element_style_of(n.children[0].text) is Some
    } else {
        cross_ref_element_style_of(n.children[0].text) is Some
    }
    &&& forall|i: int|
        1 <= i < n.children.len() ==> wf_char_item(#[trigger] n.children[i]) && !is_attrib_rule(
            n.children[i].rule,
        )
    &&& lines_separated(n.children.subrange(1, n.children.len() as int))
}

/// Whether a node is a well-formed note item: a reference or a note element.
#[verifier::opaque]
pub open spec fn wf_note_item(n: NodeView, foot: bool) -> bool
    decreases n, 4nat,
{
    if n.rule == Rule::Ref {
        wf_reference(n)
    } else {
        wf_note_elem(n, foot)
    }
}

/// Whether a node is a well-formed footnote (`foot` true) or cross-reference
/// (`foot` false): a known container tag, a single-character caller, then
/// references and note elements.
#[verifier::opaque]
pub open spec fn wf_note(n: NodeView, foot: bool) -> bool
    decreases n, 1nat,
{
    &&& n.children.len() >= 2
    &&& wf_leaf(n.children[0], Rule::Tag)
    &&& if foot {
        footnote_style_of(n.children[0].text) is Some
    } else {
        cross_ref_style_of(n.children[0].text) is Some
    }
    &&& wf_leaf(n.children[1], Rule::CallerSym)
    &&& n.children[1].text.len() == 1
    &&& forall|i: int| 2 <= i < n.children.len() ==> wf_note_item(#[trigger] n.children[i], foot)
}

/// Whether a node is a well-formed item of a paragraph or element body.
/// Verse markers are admitted only where `verses` is true.
#[verifier::opaque]
pub open spec fn wf_body_item(n: NodeView, verses: bool) -> bool
    decreases n, 5nat,
{
    match n.rule {
        Rule::Verse => verses && n.children.len() == 1 && wf_num(n.children[0], 65535),
        Rule::Line => wf_line(n),
        Rule::Char => wf_character(n),
        Rule::Foot => wf_note(n, true),
        Rule::Xref => wf_note(n, false),
        _ => false,
    }
}

/// Whether a sequence of nodes is a well-formed container body with no two
/// adjacent lines.
#[verifier::opaque]
pub open spec fn wf_body(s: Seq<NodeView>, verses: bool) -> bool
    decreases s, 6nat,
{
    &&& forall|i: int| 0 <= i < s.len() ==> wf_body_item(#[trigger] s[i], verses)
    &&& lines_separated(s)
}

/// Whether a node is a well-formed top-level entry of a document.
#[verifier::opaque]
pub open spec fn wf_book_item(n: NodeView) -> bool
    decreases n, 7nat,
{
    match n.rule {
        Rule::Id => {
            &&& n.children.len() == 2
            &&& wf_leaf(n.children[0], Rule::Tag)
            &&& book_identifier_of(n.children[0].text) is Some
            &&& wf_leaf(n.children[1], Rule::Text)
        },
        Rule::Usfm => n.children.len() == 1 && wf_leaf(n.children[0], Rule::Text),
        Rule::Ide => {
            &&& n.children.len() == 1
            &&& wf_leaf(n.children[0], Rule::Tag)
            &&& book_encoding_of(n.children[0].text) is Some
        },
        Rule::Sts => n.children.len() == 1 && wf_num(n.children[0], 65535),
        Rule::Chap => n.children.len() == 1 && wf_num(n.children[0], 65535),
        Rule::ChapAlt => n.children.len() == 1 && wf_num(n.children[0], 65535),
        Rule::Para => {
            &&& n.children.len() >= 1
            &&& wf_leaf(n.children[0], Rule::Tag)
            &&& paragraph_style_of(n.children[0].text) is Some
            &&& wf_body(n.children.subrange(1, n.children.len() as int), true)
        },
        Rule::ParaNum => {
            &&& n.children.len() >= 2
            &&& wf_leaf(n.children[0], Rule::Tag)
            &&& wf_num(n.children[1], 255)
            &&& numbered_paragraph_style_of(
                n.children[0].text,
                dec_value(n.children[1].text) as u8,
            ) is Some
            &&& wf_body(n.children.subrange(2, n.children.len() as int), true)
        },
        Rule::Poem => {
            &&& n.children.len() >= 1
            &&& wf_leaf(n.children[0], Rule::Tag)
            &&& poetry_style_of(n.children[0].text) is Some
            &&& wf_body(n.children.subrange(1, n.children.len() as int), true)
        },
        Rule::PoemNum => {
            &&& n.children.len() >= 2
            &&& wf_leaf(n.children[0], Rule::Tag)
            &&& wf_num(n.children[1], 255)
            &&& numbered_poetry_style_of(
                n.children[0].text,
                dec_value(n.children[1].text) as u8,
            ) is Some
            &&& wf_body(n.children.subrange(2, n.children.len() as int), true)
        },
        Rule::Elem => {
            &&& n.children.len() >= 1
            &&& wf_leaf(n.children[0], Rule::Tag)
            &&& element_type_of(n.children[0].text) is Some
            &&& wf_body(n.children.subrange(1, n.children.len() as int), false)
        },
        Rule::ElemNum => {
            &&& n.children.len() >= 2
            &&& wf_leaf(n.children[0], Rule::Tag)
            &&& wf_num(n.children[1], 255)
            &&& numbered_element_type_of(
                n.children[0].text,
                dec_value(n.children[1].text) as u8,
            ) is Some
            &&& wf_body(n.children.subrange(2, n.children.len() as int), false)
        },
        Rule::Empty => {
            &&& n.children.len() == 1
            &&& wf_leaf(n.children[0], Rule::Tag)
            &&& empty_type_of(n.children[0].text) is Some
        },
        _ => false,
    }
}

/// What a well-formed character span contains.
#[verifier::rlimit(100)]
#[verifier::spinoff_prover]
pub proof fn lemma_wf_character_unpack(n: NodeView)
    requires
        wf_character(n),
    ensures
        n.children.len() >= 1,
        wf_leaf(n.children[0], Rule::Tag),
        character_type_of(n.children[0].text) is Some,
        forall|k: int|
            1 <= k < n.children.len() ==> {
                if is_attrib_rule((#[trigger] n.children[k]).rule) {
                    wf_attrib_item(n.children[k])
                } else {
                    wf_char_item(n.children[k])
                }
            },
        attribs_at_end(n.children.subrange(1, n.children.len() as int)),
        lines_separated(n.children.subrange(1, n.children.len() as int)),
{
    reveal(wf_char_tree);
    assert forall|k: int| 1 <= k < n.children.len() implies {
        if is_attrib_rule((#[trigger] n.children[k]).rule) {
            wf_attrib_item(n.children[k])
        } else {
            wf_char_item(n.children[k])
        }
    } by {
        assert(n.children.subrange(1, n.children.len() as int)[k - 1] == n.children[k]);
    }
}

/// What a well-formed note contains.
pub proof fn lemma_wf_note_unpack(n: NodeView, foot: bool)
    requires
        wf_note(n, foot),
    ensures
        n.children.len() >= 2,
        wf_leaf(n.children[0], Rule::Tag),
        foot ==> footnote_style_of(n.children[0].text) is Some,
        !foot ==> cross_ref_style_of(n.children[0].text) is Some,
        wf_leaf(n.children[1], Rule::CallerSym),
        n.children[1].text.len() == 1,
        forall|k: int| 2 <= k < n.children.len() ==> wf_note_item(#[trigger] n.children[k], foot),
{
    reveal(wf_note);
}

/// What a well-formed note item is.
pub proof fn lemma_wf_note_item_unpack(n: NodeView, foot: bool)
    requires
        wf_note_item(n, foot),
    ensures
        n.rule == Rule::Ref ==> wf_reference(n),
        n.rule != Rule::Ref ==> wf_note_elem(n, foot),
{
    reveal(wf_note_item);
}

/// What a well-formed note element contains.
pub proof fn lemma_wf_note_elem_unpack(n: NodeView, foot: bool)
    requires
        wf_note_elem(n, foot),
    ensures
        n.rule == Rule::NoteElem,
        n.children.len() >= 1,
        wf_leaf(n.children[0], Rule::Tag),
        foot ==> footnote_element_style_of(n.children[0].text) is Some,
        !foot ==> cross_ref_element_style_of(n.children[0].text) is Some,
        forall|k: int|
            1 <= k < n.children.len() ==> wf_char_item(#[trigger] n.children[k]) && !is_attrib_rule(
                n.children[k].rule,
            ),
        lines_separated(n.children.subrange(1, n.children.len() as int)),
{
    reveal(wf_note_elem);
}

/// What a well-formed body item is, rule by rule.
pub proof fn lemma_wf_body_item_unpack(n: NodeView, verses: bool)
    requires
        wf_body_item(n, verses),
    ensures
        n.rule == Rule::Verse || n.rule == Rule::Line || n.rule == Rule::Char || n.rule
            == Rule::Foot || n.rule == Rule::Xref,
        n.rule == Rule::Verse ==> verses && n.children.len() == 1 && wf_num(n.children[0], 65535),
        n.rule == Rule::Line ==> wf_line(n),
        n.rule == Rule::Char ==> wf_character(n),
        n.rule == Rule::Foot ==> wf_note(n, true),
        n.rule == Rule::Xref ==> wf_note(n, false),
{
    reveal(wf_body_item);
}

/// What a well-formed top-level entry is, rule by rule.
pub proof fn lemma_wf_book_item_reveal(n: NodeView)
    requires
        wf_book_item(n),
    ensures
        n.rule == Rule::Id || n.rule == Rule::Usfm || n.rule == Rule::Ide || n.rule == Rule::Sts
            || n.rule == Rule::Chap || n.rule == Rule::ChapAlt || n.rule == Rule::Para || n.rule
            == Rule::ParaNum || n.rule == Rule::Poem || n.rule == Rule::PoemNum || n.rule
            == Rule::Elem || n.rule == Rule::ElemNum || n.rule == Rule::Empty,
        n.rule == Rule::Id ==> n.children.len() == 2 && wf_leaf(n.children[0], Rule::Tag)
            && book_identifier_of(n.children[0].text) is Some && wf_leaf(
            n.children[1],
            Rule::Text,
        ),
        n.rule == Rule::Usfm ==> n.children.len() == 1 && wf_leaf(n.children[0], Rule::Text),
        n.rule == Rule::Ide ==> n.children.len() == 1 && wf_leaf(n.children[0], Rule::Tag)
            && book_encoding_of(n.children[0].text) is Some,
        n.rule == Rule::Sts || n.rule == Rule::Chap || n.rule == Rule::ChapAlt ==> n.children.len()
            == 1 && wf_num(n.children[0], 65535),
        n.rule == Rule::Para ==> n.children.len() >= 1 && wf_leaf(n.children[0], Rule::Tag)
            && paragraph_style_of(n.children[0].text) is Some && wf_body(
            n.children.subrange(1, n.children.len() as int),
            true,
        ),
        n.rule == Rule::ParaNum ==> n.children.len() >= 2 && wf_leaf(n.children[0], Rule::Tag)
            && wf_num(n.children[1], 255) && numbered_paragraph_style_of(
            n.children[0].text,
            dec_value(n.children[1].text) as u8,
        ) is Some && wf_body(n.children.subrange(2, n.children.len() as int), true),
        n.rule == Rule::Poem ==> n.children.len() >= 1 && wf_leaf(n.children[0], Rule::Tag)
            && poetry_style_of(n.children[0].text) is Some && wf_body(
            n.children.subrange(1, n.children.len() as int),
            true,
        ),
        n.rule == Rule::PoemNum ==> n.children.len() >= 2 && wf_leaf(n.children[0], Rule::Tag)
            && wf_num(n.children[1], 255) && numbered_poetry_style_of(
            n.children[0].text,
            dec_value(n.children[1].text) as u8,
        ) is Some && wf_body(n.children.subrange(2, n.children.len() as int), true),
        n.rule == Rule::Elem ==> n.children.len() >= 1 && wf_leaf(n.children[0], Rule::Tag)
            && element_type_of(n.children[0].text) is Some && wf_body(
            n.children.subrange(1, n.children.len() as int),
            false,
        ),
        n.rule == Rule::ElemNum ==> n.children.len() >= 2 && wf_leaf(n.children[0], Rule::Tag)
            && wf_num(n.children[1], 255) && numbered_element_type_of(
            n.children[0].text,
            dec_value(n.children[1].text) as u8,
        ) is Some && wf_body(n.children.subrange(2, n.children.len() as int), false),
        n.rule == Rule::Empty ==> n.children.len() == 1 && wf_leaf(n.children[0], Rule::Tag)
            && empty_type_of(n.children[0].text) is Some,
{
    reveal(wf_book_item);
}

/// A syntax diagnostic: the position (in characters) where recognition
/// failed, and the production that was expected there.
#[derive(Debug)]
pub struct ParseError {
    pub pos: usize,
    pub expected: String,
}

impl ParseError {
    /// The position where recognition failed, in characters from the start
    /// of the input.
    pub fn position(&self) -> (r: usize)
        ensures
            r == self.pos,
    {
        self.pos
    }

    /// What was expected at the position where recognition failed.
    pub fn message(&self) -> (r: &str)
        ensures
            r@ == self.expected@,
    {
        self.expected.as_str()
    }
}

fn err<T>(pos: usize, expected: &str) -> (r: Result<T, ParseError>)
    ensures
        r is Err,
{
    Err(ParseError { pos, expected: expected.to_owned() })
}

/// Builds a leaf node.
fn leaf(rule: Rule, text: String) -> (n: Node)
    ensures
        n@ == (NodeView { rule, text: text@, children: Seq::<NodeView>::empty() }),
{
    let n = Node { rule, text, children: Vec::new() };
    proof {
        broadcast use lemma_node_view;

        lemma_node_seq_view(n.children@);
        assert(n@.children =~= Seq::<NodeView>::empty());
        assert(n@ =~= NodeView { rule, text: n.text@, children: Seq::<NodeView>::empty() });
    }
    n
}

/// Skips spaces and tabs.
fn skip_spaces(s: &str, pos: usize) -> (r: usize)
    requires
        pos <= s@.len(),
    ensures
        pos <= r <= s@.len(),
        r == spec_skip_spaces(s@, pos as int),
{
    let len = s.unicode_len();
    let mut i = pos;
    while i < len
        invariant
            pos <= i <= len,
            len == s@.len(),
            spec_skip_spaces(s@, pos as int) == spec_skip_spaces(s@, i as int),
        ensures
            pos <= i <= len,
            spec_skip_spaces(s@, pos as int) == spec_skip_spaces(s@, i as int),
            spec_skip_spaces(s@, i as int) == i,
        decreases len - i,
    {
        let c = s.get_char(i);
        if c == ' ' || c == '\t' {
            i += 1;
        } else {
            break;
        }
    }
    i
}

/// Skips spaces, tabs, carriage returns and newlines.
fn skip_blank(s: &str, pos: usize) -> (r: usize)
    requires
        pos <= s@.len(),
    ensures
        pos <= r <= s@.len(),
        r < s@.len() ==> s@[r as int] != ' ' && s@[r as int] != '\t' && s@[r as int] != '\n'
            && s@[r as int] != '\r',
        r == spec_skip_blank(s@, pos as int),
{
    let len = s.unicode_len();
    let mut i = pos;
    while i < len
        invariant
            pos <= i <= len,
            len == s@.len(),
            spec_skip_blank(s@, pos as int) == spec_skip_blank(s@, i as int),
        decreases len - i,
    {
        let c = s.get_char(i);
        if c == ' ' || c == '\t' || c == '\n' || c == '\r' {
            i += 1;
        } else {
            return i;
        }
    }
    i
}

/// Scans a non-empty digit run whose value is at most `max`, returning its
/// text, its value, and the position after it.
fn scan_digits(s: &str, pos: usize, max: u32) -> (r: Result<(String, u32, usize), ParseError>)
    requires
        pos <= s@.len(),
        max <= 65535,
    ensures
        r matches Ok(d) ==> {
            &&& pos < d.2 <= s@.len()
            &&& d.0@ == s@.subrange(pos as int, d.2 as int)
            &&& is_digits(d.0@)
            &&& dec_value(d.0@) == d.1
            &&& d.1 <= max
        },
{
    let len = s.unicode_len();
    let mut i = pos;
    let mut val: u32 = 0;
    while i < len
        invariant
            pos <= i <= len,
            len == s@.len(),
            max <= u32::MAX,
            val == dec_value(s@.subrange(pos as int, i as int)),
            val <= max,
            forall|k: int| pos <= k < i ==> is_digit(#[trigger] s@[k]),
        decreases len - i,
    {
        let c = s.get_char(i);
        if c < '0' || c > '9' {
            break;
        }
        let d: u32 = (c as u32) - ('0' as u32);
        proof {
            assert(d == digit_val(s@[i as int]));
        }
        let wide: u64 = (val as u64) * 10 + (d as u64);
        if wide > max as u64 {
            return err(i, "a smaller number");
        }
        let new_val = wide as u32;
        proof {
            let t = s@.subrange(pos as int, i as int + 1);
            assert(t.drop_last() =~= s@.subrange(pos as int, i as int));
            assert(t.last() == s@[i as int]);
        }
        val = new_val;
        i += 1;
    }
    if i == pos {
        return err(pos, "a number");
    }
    let text = s.substring_char(pos, i).to_owned();
    proof {
        assert(forall|k: int|
            0 <= k < text@.len() ==> text@[k] == s@[pos + k] && is_digit(#[trigger] text@[k]));
    }
    Ok((text, val, i))
}

/// Scans a non-empty run of lowercase tag letters.
fn scan_tag_letters(s: &str, pos: usize) -> (r: Result<(String, usize), ParseError>)
    requires
        pos <= s@.len(),
    ensures
        r matches Ok(t) ==> {
            &&& pos < t.1 <= s@.len()
            &&& t.0@.len() > 0
            &&& t.1 == spec_letters_end(s@, pos as int)
            &&& t.0@ == s@.subrange(pos as int, t.1 as int)
        },
        r is Err ==> spec_letters_end(s@, pos as int) == pos,
{
    let len = s.unicode_len();
    let mut i = pos;
    while i < len
        invariant
            pos <= i <= len,
            len == s@.len(),
            spec_letters_end(s@, pos as int) == spec_letters_end(s@, i as int),
        ensures
            pos <= i <= len,
            len == s@.len(),
            spec_letters_end(s@, pos as int) == spec_letters_end(s@, i as int),
            spec_letters_end(s@, i as int) == i,
        decreases len - i,
    {
        let c = s.get_char(i);
        if c < 'a' || c > 'z' {
            break;
        }
        i += 1;
    }
    if i == pos {
        return err(pos, "a marker tag");
    }
    let text = s.substring_char(pos, i).to_owned();
    Ok((text, i))
}

/// A scanned marker: its optional nesting prefix, its tag letters, its
/// optional numeric suffix with the suffix's value, whether it is a closing
/// marker, and the position after it.
pub struct Marker {
    pub plus: bool,
    pub tag: String,
    pub num: Option<(String, u8)>,
    pub star: bool,
    pub next: usize,
}

/// Appending a node to a sequence appends its view to the sequence's view.
proof fn lemma_seq_view_push(v: Seq<Node>, old_v: Seq<Node>, n: Node)
    requires
        v == old_v.push(n),
    ensures
        node_seq_view(v) == node_seq_view(old_v).push(node_view(n)),
{
    reveal(node_view);
    reveal(node_seq_view);
    assert(v.drop_last() =~= old_v);
    assert(v.last() == n);
}

/// A node that is not a line, or follows something other than a line, keeps
/// lines separated when appended.
proof fn lemma_lines_separated_push(s: Seq<NodeView>, x: NodeView)
    requires
        lines_separated(s),
        x.rule == Rule::Line ==> s.len() == 0 || s.last().rule != Rule::Line,
    ensures
        lines_separated(s.push(x)),
{
    let t = s.push(x);
    assert forall|i: int| 0 <= i && i + 1 < t.len() implies !(#[trigger] t[i].rule == Rule::Line
        && t[i + 1].rule == Rule::Line) by {
        if i + 1 < s.len() {
            assert(t[i] == s[i]);
            assert(t[i + 1] == s[i + 1]);
        } else {
            assert(i + 1 == s.len());
            assert(t[i + 1] == x);
            if 0 <= i {
                assert(t[i] == s[i]);
                assert(s[i] == s.last());
            }
        }
    }
}

/// The view of a concatenation of node sequences is the concatenation of
/// their views.
proof fn lemma_seq_view_concat(a: Seq<Node>, b: Seq<Node>)
    ensures
        node_seq_view(a + b) == node_seq_view(a) + node_seq_view(b),
{
    lemma_node_seq_view(a + b);
    lemma_node_seq_view(a);
    lemma_node_seq_view(b);
    assert(node_seq_view(a + b) =~= node_seq_view(a) + node_seq_view(b)) by {
        assert forall|k: int| 0 <= k < a.len() + b.len() implies node_seq_view(a + b)[k]
            == (node_seq_view(a) + node_seq_view(b))[k] by {
            if k < a.len() {
                assert((a + b)[k] == a[k]);
            } else {
                assert((a + b)[k] == b[k - a.len()]);
            }
        }
    }
}

/// Well-formed, attribute-free character-span contents: every node is a
/// content item and no two adjacent nodes are lines.
#[verifier::opaque]
pub open spec fn char_items_ok(vs: Seq<NodeView>) -> bool {
    &&& forall|k: int|
        0 <= k < vs.len() ==> wf_char_item(#[trigger] vs[k]) && !is_attrib_rule(vs[k].rule)
    &&& lines_separated(vs)
}

proof fn lemma_char_items_empty()
    ensures
        char_items_ok(Seq::<NodeView>::empty()),
{
    reveal(char_items_ok);
}

proof fn lemma_char_items_push(vs: Seq<NodeView>, x: NodeView)
    requires
        char_items_ok(vs),
        wf_char_item(x),
        !is_attrib_rule(x.rule),
        x.rule == Rule::Line ==> vs.len() == 0 || vs.last().rule != Rule::Line,
    ensures
        char_items_ok(vs.push(x)),
{
    reveal(char_items_ok);
    lemma_lines_separated_push(vs, x);
    assert forall|k: int| 0 <= k < vs.push(x).len() implies wf_char_item(#[trigger] vs.push(x)[k])
        && !is_attrib_rule(vs.push(x)[k].rule) by {
        if k < vs.len() {
            assert(vs.push(x)[k] == vs[k]);
        } else {
            assert(vs.push(x)[k] == x);
        }
    }
}

pub proof fn lemma_char_items_unpack(vs: Seq<NodeView>)
    requires
        char_items_ok(vs),
    ensures
        forall|k: int|
            0 <= k < vs.len() ==> wf_char_item(#[trigger] vs[k]) && !is_attrib_rule(vs[k].rule),
        lines_separated(vs),
{
    reveal(char_items_ok);
}

proof fn lemma_char_items_wf(vs: Seq<NodeView>)
    requires
        char_items_ok(vs),
    ensures
        wf_char_body(vs),
{
    reveal(char_items_ok);
}

/// A line is a character-span content item.
proof fn lemma_char_item_of_line(n: NodeView)
    requires
        wf_line(n),
    ensures
        wf_char_item(n),
        !is_attrib_rule(n.rule),
        n.rule == Rule::Line,
{
}

/// A character span is a character-span content item.
proof fn lemma_char_item_of_character(n: NodeView)
    requires
        n.rule == Rule::Char || n.rule == Rule::CharNested,
        wf_character(n),
    ensures
        wf_char_item(n),
        !is_attrib_rule(n.rule),
        n.rule != Rule::Line,
{
}

/// What makes a node a well-formed character span.
#[verifier::rlimit(100)]
#[verifier::spinoff_prover]
proof fn lemma_wf_character_intro(n: NodeView)
    requires
        n.children.len() >= 1,
        wf_leaf(n.children[0], Rule::Tag),
        character_type_of(n.children[0].text) is Some,
        wf_char_body(n.children.subrange(1, n.children.len() as int)),
    ensures
        wf_character(n),
{
    reveal(wf_char_tree);
    let sub = n.children.subrange(1, n.children.len() as int);
    assert forall|k: int| 1 <= k < n.children.len() implies {
        if is_attrib_rule((#[trigger] n.children[k]).rule) {
            wf_attrib_item(n.children[k])
        } else {
            ||| wf_line(n.children[k])
            ||| ((n.children[k].rule == Rule::Char || n.children[k].rule == Rule::CharNested)
                && wf_char_tree(n.children[k]))
        }
    } by {
        assert(n.children[k] == sub[k - 1]);
    }
    assert(wf_char_tree(n));
}

/// Appending a block of attribute nodes to well-formed, attribute-free
/// character-span contents yields a well-formed character-span body.
proof fn lemma_append_attrib_views(vs: Seq<NodeView>, ws: Seq<NodeView>)
    requires
        char_items_ok(vs),
        forall|k: int|
            0 <= k < ws.len() ==> wf_attrib_item(#[trigger] ws[k]) && is_attrib_rule(ws[k].rule),
    ensures
        wf_char_body(vs + ws),
{
    reveal(char_items_ok);
    let t = vs + ws;
    assert forall|k: int| 0 <= k < t.len() implies {
        if is_attrib_rule((#[trigger] t[k]).rule) {
            wf_attrib_item(t[k])
        } else {
            wf_char_item(t[k])
        }
    } by {
        if k < vs.len() {
            assert(t[k] == vs[k]);
        } else {
            assert(t[k] == ws[k - vs.len()]);
        }
    }
    assert forall|a: int|
        0 <= a && a + 1 < t.len() && is_attrib_rule((#[trigger] t[a]).rule) implies is_attrib_rule(
        t[a + 1].rule,
    ) by {
        if a < vs.len() {
            assert(t[a] == vs[a]);
        } else {
            assert(t[a + 1] == ws[a + 1 - vs.len()]);
        }
    }
    assert forall|a: int|
        0 <= a && a + 1 < t.len() implies !(#[trigger] t[a].rule == Rule::Line && t[a + 1].rule
        == Rule::Line) by {
        if a + 1 < vs.len() {
            assert(t[a] == vs[a]);
            assert(t[a + 1] == vs[a + 1]);
        } else {
            assert(t[a + 1] == ws[a + 1 - vs.len()]);
        }
    }
}

/// An empty container body is well formed.
proof fn lemma_wf_body_empty(verses: bool)
    ensures
        wf_body(Seq::<NodeView>::empty(), verses),
{
    reveal(wf_body);
}

/// A body item that does not put two lines side by side keeps a container
/// body well formed.
proof fn lemma_wf_body_push(vs: Seq<NodeView>, x: NodeView, verses: bool)
    requires
        wf_body(vs, verses),
        wf_body_item(x, verses),
        x.rule == Rule::Line ==> vs.len() == 0 || vs.last().rule != Rule::Line,
    ensures
        wf_body(vs.push(x), verses),
        lines_separated(vs.push(x)),
{
    reveal(wf_body);
    lemma_lines_separated_push(vs, x);
    assert forall|k: int| 0 <= k < vs.push(x).len() implies wf_body_item(
        #[trigger] vs.push(x)[k],
        verses,
    ) by {
        if k < vs.len() {
            assert(vs.push(x)[k] == vs[k]);
        } else {
            assert(vs.push(x)[k] == x);
        }
    }
}

/// What a well-formed container body contains.
pub proof fn lemma_wf_body_unpack(vs: Seq<NodeView>, verses: bool)
    requires
        wf_body(vs, verses),
    ensures
        forall|k: int| 0 <= k < vs.len() ==> wf_body_item(#[trigger] vs[k], verses),
        lines_separated(vs),
{
    reveal(wf_body);
}

/// A line is a container-body item.
proof fn lemma_body_item_of_line(n: NodeView, verses: bool)
    requires
        wf_line(n),
    ensures
        wf_body_item(n, verses),
{
    reveal(wf_body_item);
}

/// Well-formed note contents.
#[verifier::opaque]
pub open spec fn note_items_ok(vs: Seq<NodeView>, foot: bool) -> bool {
    forall|k: int| 0 <= k < vs.len() ==> wf_note_item(#[trigger] vs[k], foot)
}

proof fn lemma_note_items_empty(foot: bool)
    ensures
        note_items_ok(Seq::<NodeView>::empty(), foot),
{
    reveal(note_items_ok);
}

proof fn lemma_note_items_push(vs: Seq<NodeView>, x: NodeView, foot: bool)
    requires
        note_items_ok(vs, foot),
        wf_note_item(x, foot),
    ensures
        note_items_ok(vs.push(x), foot),
{
    reveal(note_items_ok);
    assert forall|k: int| 0 <= k < vs.push(x).len() implies wf_note_item(
        #[trigger] vs.push(x)[k],
        foot,
    ) by {
        if k < vs.len() {
            assert(vs.push(x)[k] == vs[k]);
        } else {
            assert(vs.push(x)[k] == x);
        }
    }
}

proof fn lemma_note_items_unpack(vs: Seq<NodeView>, foot: bool)
    requires
        note_items_ok(vs, foot),
    ensures
        forall|k: int| 0 <= k < vs.len() ==> wf_note_item(#[trigger] vs[k], foot),
{
    reveal(note_items_ok);
}

/// A reference is a note item.
proof fn lemma_note_item_of_reference(n: NodeView, foot: bool)
    requires
        wf_reference(n),
    ensures
        wf_note_item(n, foot),
{
    reveal(wf_note_item);
}

/// A note element is a note item.
proof fn lemma_note_item_of_elem(n: NodeView, foot: bool)
    requires
        wf_note_elem(n, foot),
    ensures
        wf_note_item(n, foot),
{
    reveal(wf_note_item);
    reveal(wf_note_elem);
}

/// The view of a concatenation, read off its two parts.
proof fn lemma_container_views(children: Seq<Node>, head: Seq<Node>, body: Seq<Node>)
    requires
        children == head + body,
    ensures
        node_seq_view(children).len() == children.len(),
        children.len() == head.len() + body.len(),
        forall|k: int|
            0 <= k < head.len() ==> node_seq_view(children)[k] == node_view(#[trigger] head[k]),
        node_seq_view(children).subrange(head.len() as int, children.len() as int)
            == node_seq_view(body),
{
    lemma_node_seq_view(children);
    lemma_node_seq_view(body);
    assert forall|k: int| 0 <= k < head.len() implies node_seq_view(children)[k] == node_view(
        #[trigger] head[k],
    ) by {
        assert(children[k] == head[k]);
    }
    assert(node_seq_view(children).subrange(head.len() as int, children.len() as int)
        =~= node_seq_view(body)) by {
        assert forall|k: int| 0 <= k < body.len() implies node_seq_view(children).subrange(
            head.len() as int,
            children.len() as int,
        )[k] == node_seq_view(body)[k] by {
            assert(children[head.len() + k] == body[k]);
        }
    }
}

/// Builds a node with a single child.
fn node1(rule: Rule, child: Node) -> (n: Node)
    ensures
        n@.rule == rule,
        n@.children.len() == 1,
        n@.children[0] == child@,
{
    let mut ch: Vec<Node> = Vec::new();
    ch.push(child);
    let n = Node { rule, text: String::new(), children: ch };
    proof {
        broadcast use lemma_node_view;

        lemma_node_seq_view(n.children@);
        assert(n@.children[0] == node_view(n.children@[0]));
    }
    n
}

/// Scans one backslash marker: a backslash, an optional `+`, tag letters, an
/// optional digit suffix, and an optional closing `*`.
fn scan_marker(s: &str, pos: usize) -> (r: Result<Marker, ParseError>)
    requires
        pos < s@.len(),
        s@[pos as int] == '\\',
    ensures
        r matches Ok(m) ==> {
            &&& pos < m.next <= s@.len()
            &&& m.tag@.len() > 0
            &&& (m.num matches Some(p) ==> is_digits(p.0@) && dec_value(p.0@) == p.1)
            &&& (m.plus <==> (pos + 1 < s@.len() && s@[pos as int + 1] == '+'))
            &&& (!m.plus ==> m.tag@ == s@.subrange(
                pos as int + 1,
                spec_letters_end(s@, pos as int + 1),
            ))
            &&& (!m.plus && m.num is None && !m.star ==> {
                &&& m.next == spec_letters_end(s@, pos as int + 1)
                &&& !(m.next < s@.len() && is_digit(s@[m.next as int]))
                &&& !(m.next < s@.len() && s@[m.next as int] == '*')
            })
        },
{
    let len = s.unicode_len();
    let mut i = pos + 1;
    let mut plus = false;
    if i < len && s.get_char(i) == '+' {
        plus = true;
        i += 1;
    }
    let (tag, after_tag) = match scan_tag_letters(s, i) {
        Ok(t) => t,
        Err(e) => {
            return Err(e);
        },
    };
    i = after_tag;
    let mut num: Option<(String, u8)> = None;
    if i < len {
        let c = s.get_char(i);
        if '0' <= c && c <= '9' {
            let (text, val, after_num) = match scan_digits(s, i, 255) {
                Ok(d) => d,
                Err(e) => {
                    return Err(e);
                },
            };
            num = Some((text, val as u8));
            i = after_num;
        }
    }
    let mut star = false;
    if i < len && s.get_char(i) == '*' {
        star = true;
        i += 1;
    }
    Ok(Marker { plus, tag, num, star, next: i })
}

/// Builds a line node from a span of the input, or nothing when the span is
/// empty.
fn mk_line(s: &str, from: usize, to: usize) -> (r: Option<Node>)
    requires
        from <= to <= s@.len(),
    ensures
        r matches Some(n) ==> wf_line(n@) && n@.rule == Rule::Line,
        r is Some <==> from < to,
{
    if from < to {
        Some(leaf(Rule::Line, s.substring_char(from, to).to_owned()))
    } else {
        None
    }
}

/// Scans a run of text: everything up to the next backslash (or, inside a
/// character span, pipe) or the end of input. A single newline directly
/// before a marker or the end of input is consumed but kept out of the text,
/// as is a single newline at the start of the run; an empty run produces no
/// node.
fn scan_line(s: &str, pos: usize, in_char: bool) -> (r: (Option<Node>, usize))
    requires
        pos < s@.len(),
        s@[pos as int] != '\\',
        in_char ==> s@[pos as int] != '|',
    ensures
        pos < r.1 <= s@.len(),
        r.0 matches Some(n) ==> wf_line(n@) && n@.rule == Rule::Line,
        r.1 < s@.len() ==> s@[r.1 as int] == '\\' || (in_char && s@[r.1 as int] == '|'),
{
    let len = s.unicode_len();
    let mut start = pos;
    if s.get_char(pos) == '\n' {
        start = pos + 1;
    }
    let mut i = start;
    while i < len
        invariant
            pos <= start <= i <= len,
            start <= pos + 1,
            pos < len,
            len == s@.len(),
            s@[pos as int] != '\\',
            in_char ==> s@[pos as int] != '|',
        ensures
            pos <= start <= i <= len,
            i == len,
        decreases len - i,
    {
        let c = s.get_char(i);
        if c == '\\' || (in_char && c == '|') {
            return (mk_line(s, start, i), i);
        }
        if c == '\n' {
            if i + 1 >= len {
                return (mk_line(s, start, i), i + 1);
            }
            let c2 = s.get_char(i + 1);
            if c2 == '\\' {
                return (mk_line(s, start, i), i + 1);
            }
        }
        i += 1;
    }
    (mk_line(s, start, len), len)
}

/// Builds a named-attribute node from a name and a value.
fn attrib_node(name: String, value: String) -> (n: Node)
    ensures
        n@.rule == Rule::Attrib,
        wf_attrib_item(n@),
        is_attrib_rule(n@.rule),
{
    let mut ch: Vec<Node> = Vec::new();
    ch.push(leaf(Rule::Name, name));
    ch.push(leaf(Rule::Value, value));
    let n = Node { rule: Rule::Attrib, text: String::new(), children: ch };
    proof {
        broadcast use lemma_node_view;

        lemma_node_seq_view(n.children@);
        assert(n.children@.len() == 2);
        assert(n@.children[0] == node_view(n.children@[0]));
        assert(n@.children[1] == node_view(n.children@[1]));
    }
    n
}

/// Scans the attribute block of a character span, from its opening pipe up
/// to the closing marker: either one bare value, or comma-separated
/// `name="value"` entries.
fn scan_attribs(s: &str, pos: usize) -> (r: Result<(Vec<Node>, usize), ParseError>)
    requires
        pos < s@.len(),
        s@[pos as int] == '|',
    ensures
        r matches Ok(t) ==> {
            &&& pos < t.1 <= s@.len()
            &&& node_seq_view(t.0@).len() == t.0@.len()
            &&& forall|k: int|
                0 <= k < t.0@.len() ==> wf_attrib_item(#[trigger] node_seq_view(t.0@)[k])
                    && is_attrib_rule(node_seq_view(t.0@)[k].rule)
            &&& t.1 < s@.len() ==> s@[t.1 as int] == '\\'
        },
{
    let len = s.unicode_len();
    let start = pos + 1;
    let mut j = start;
    let mut has_eq = false;
    while j < len
        invariant
            start <= j <= len,
            len == s@.len(),
        ensures
            start <= j <= len,
            j < len ==> s@[j as int] == '\\',
        decreases len - j,
    {
        let c = s.get_char(j);
        if c == '\\' {
            break;
        }
        if c == '=' {
            has_eq = true;
        }
        j += 1;
    }
    if !has_eq {
        let node = leaf(Rule::Value, s.substring_char(start, j).to_owned());
        let mut items: Vec<Node> = Vec::new();
        items.push(node);
        proof {
            lemma_node_seq_view(items@);
            assert(node_seq_view(items@)[0] == node_view(items@[0]));
        }
        return Ok((items, j));
    }
    let mut items: Vec<Node> = Vec::new();
    proof {
        lemma_node_seq_view(items@);
    }
    let mut i = start;
    loop
        invariant
            pos < i <= len,
            len == s@.len(),
            node_seq_view(items@).len() == items@.len(),
            forall|k: int|
                0 <= k < items@.len() ==> wf_attrib_item(#[trigger] node_seq_view(items@)[k])
                    && is_attrib_rule(node_seq_view(items@)[k].rule),
        ensures
            pos < i <= len,
            node_seq_view(items@).len() == items@.len(),
            forall|k: int|
                0 <= k < items@.len() ==> wf_attrib_item(#[trigger] node_seq_view(items@)[k])
                    && is_attrib_rule(node_seq_view(items@)[k].rule),
        decreases len - i,
    {
        i = skip_spaces(s, i);
        let name_start = i;
        while i < len
            invariant
                name_start <= i <= len,
                len == s@.len(),
            ensures
                name_start <= i <= len,
                i < len ==> s@[i as int] == '=' || s@[i as int] == '\\',
            decreases len - i,
        {
            let c = s.get_char(i);
            if c == '=' || c == '\\' {
                break;
            }
            i += 1;
        }
        if i >= len {
            return err(i, "an attribute name followed by an equals sign");
        }
        if s.get_char(i) == '\\' {
            return err(i, "an attribute name followed by an equals sign");
        }
        let name = s.substring_char(name_start, i).to_owned();
        i += 1;
        if i >= len || s.get_char(i) != '"' {
            return err(i, "a quoted attribute value");
        }
        i += 1;
        let val_start = i;
        while i < len
            invariant
                val_start <= i <= len,
                len == s@.len(),
            ensures
                val_start <= i <= len,
                i < len ==> s@[i as int] == '"',
            decreases len - i,
        {
            if s.get_char(i) == '"' {
                break;
            }
            i += 1;
        }
        if i >= len {
            return err(i, "a closing quote");
        }
        let value = s.substring_char(val_start, i).to_owned();
        i += 1;
        let ghost old_items = items@;
        let node = attrib_node(name, value);
        items.push(node);
        proof {
            lemma_seq_view_push(items@, old_items, node);
        }
        i = skip_spaces(s, i);
        if i < len && s.get_char(i) == ',' {
            i += 1;
        } else {
            break;
        }
    }
    if i < len && s.get_char(i) != '\\' {
        return err(i, "the closing marker of the attribute block");
    }
    Ok((items, i))
}

/// Scans the attribute block of a character span together with the closing
/// marker that must follow it.
fn scan_attrib_close(s: &str, pos: usize, nested: bool, tag: &str) -> (r: Result<
    (Vec<Node>, usize),
    ParseError,
>)
    requires
        pos < s@.len(),
        s@[pos as int] == '|',
    ensures
        r matches Ok(t) ==> {
            &&& pos < t.1 <= s@.len()
            &&& node_seq_view(t.0@).len() == t.0@.len()
            &&& forall|k: int|
                0 <= k < t.0@.len() ==> wf_attrib_item(#[trigger] node_seq_view(t.0@)[k])
                    && is_attrib_rule(node_seq_view(t.0@)[k].rule)
        },
{
    let (attribs, p) = match scan_attribs(s, pos) {
        Ok(t) => t,
        Err(e) => {
            return Err(e);
        },
    };
    if p >= s.unicode_len() {
        return err(p, "the closing marker of a character span");
    }
    let m3 = match scan_marker(s, p) {
        Ok(m3) => m3,
        Err(e) => {
            return Err(e);
        },
    };
    if !(m3.star && m3.plus == nested && m3.num.is_none() && str_eq(m3.tag.as_str(), tag)) {
        return err(p, "the matching closing marker");
    }
    Ok((attribs, m3.next))
}

/// Handles one marker inside a character span: the matching closing marker
/// ends the span, a nested character marker opens a child span, anything
/// else is a syntax error.
fn scan_char_step(s: &str, pos: usize, nested: bool, tag: &str) -> (r: Result<
    (Option<Node>, usize),
    ParseError,
>)
    requires
        pos < s@.len(),
        s@[pos as int] == '\\',
    ensures
        r matches Ok(t) ==> {
            &&& pos < t.1 <= s@.len()
            &&& (t.0 matches Some(n) ==> wf_char_item(n@) && !is_attrib_rule(n@.rule) && n@.rule
                != Rule::Line)
        },
    decreases s@.len() - pos, 1nat,
{
    let m2 = match scan_marker(s, pos) {
        Ok(m2) => m2,
        Err(e) => {
            return Err(e);
        },
    };
    if m2.star {
        if m2.plus == nested && m2.num.is_none() && str_eq(m2.tag.as_str(), tag) {
            return Ok((None, m2.next));
        }
        return err(pos, "the matching closing marker");
    }
    if m2.plus && m2.num.is_none() && try_character_type(m2.tag.as_str()).is_some() {
        let (child, p) = match scan_character(s, pos, true) {
            Ok(t) => t,
            Err(e) => {
                return Err(e);
            },
        };
        proof {
            lemma_char_item_of_character(child@);
        }
        return Ok((Some(child), p));
    }
    err(pos, "a nested character marker or the closing marker")
}

/// Scans a character span: an opening marker with a known character style,
/// text lines and nested character spans, an optional attribute block, and
/// the matching closing marker. `nested` selects the `\+tag` form.
#[verifier::rlimit(100)]
fn scan_character(s: &str, pos: usize, nested: bool) -> (r: Result<(Node, usize), ParseError>)
    requires
        pos < s@.len(),
        s@[pos as int] == '\\',
    ensures
        r matches Ok(t) ==> {
            &&& pos < t.1 <= s@.len()
            &&& t.0@.rule == (if nested {
                Rule::CharNested
            } else {
                Rule::Char
            })
            &&& wf_character(t.0@)
        },
    decreases s@.len() - pos, 0nat,
{
    let len = s.unicode_len();
    let m = match scan_marker(s, pos) {
        Ok(m) => m,
        Err(e) => {
            return Err(e);
        },
    };
    if m.star || m.plus != nested || m.num.is_some() {
        return err(pos, "a character style marker");
    }
    if try_character_type(m.tag.as_str()).is_none() {
        return err(pos, "a character style marker");
    }
    let tag = m.tag;
    let tag_node = leaf(Rule::Tag, tag.clone());
    let mut body: Vec<Node> = Vec::new();
    proof {
        lemma_node_seq_view(body@);
        lemma_char_items_empty();
        assert(node_seq_view(body@) =~= Seq::<NodeView>::empty());
    }
    let mut i = skip_spaces(s, m.next);
    loop
        invariant_except_break
            node_seq_view(body@).len() > 0 && node_seq_view(body@).last().rule == Rule::Line
                ==> i == len || s@[i as int] == '\\' || s@[i as int] == '|',
            char_items_ok(node_seq_view(body@)),
        invariant
            pos < i <= len,
            len == s@.len(),
        ensures
            pos < i <= len,
            wf_char_body(node_seq_view(body@)),
        decreases len - i,
    {
        if i >= len {
            return err(i, "the closing marker of a character span");
        }
        let c = s.get_char(i);
        if c == '\\' {
            let (step, p) = match scan_char_step(s, i, nested, tag.as_str()) {
                Ok(t) => t,
                Err(e) => {
                    return Err(e);
                },
            };
            match step {
                Some(child) => {
                    let ghost old_nodes = body@;
                    body.push(child);
                    proof {
                        lemma_seq_view_push(body@, old_nodes, child);
                        lemma_char_items_push(node_seq_view(old_nodes), child@);
                    }
                    i = p;
                },
                None => {
                    i = p;
                    proof {
                        lemma_char_items_wf(node_seq_view(body@));
                    }
                    break;
                },
            }
        } else if c == '|' {
            let (attribs, p) = match scan_attrib_close(s, i, nested, tag.as_str()) {
                Ok(t) => t,
                Err(e) => {
                    return Err(e);
                },
            };
            let ghost old_body = body@;
            let ghost attrib_seq = attribs@;
            let mut attribs = attribs;
            body.append(&mut attribs);
            proof {
                lemma_seq_view_concat(old_body, attrib_seq);
                lemma_append_attrib_views(node_seq_view(old_body), node_seq_view(attrib_seq));
            }
            i = p;
            break;
        } else {
            let (opt, p) = scan_line(s, i, true);
            match opt {
                Some(n2) => {
                    let ghost old_nodes = body@;
                    body.push(n2);
                    proof {
                        lemma_seq_view_push(body@, old_nodes, n2);
                        lemma_char_item_of_line(n2@);
                        lemma_char_items_push(node_seq_view(old_nodes), n2@);
                    }
                },
                None => {},
            }
            i = p;
        }
    }
    let mut children: Vec<Node> = Vec::new();
    children.push(tag_node);
    let ghost head = children@;
    let ghost body_seq = body@;
    let mut body = body;
    children.append(&mut body);
    let n = Node {
        rule: if nested {
            Rule::CharNested
        } else {
            Rule::Char
        },
        text: String::new(),
        children,
    };
    proof {
        broadcast use lemma_node_view;

        lemma_container_views(n.children@, head, body_seq);
        assert(n@.children[0] == node_view(head[0]));
        assert(n@.children.subrange(1, n@.children.len() as int) == node_seq_view(body_seq));
        lemma_wf_character_intro(n@);
    }
    Ok((n, i))
}

/// Scans a reference inside a note: the introducing marker, a chapter
/// number, a single separator character, and a verse number.
fn scan_reference(s: &str, pos: usize) -> (r: Result<(Node, usize), ParseError>)
    requires
        pos < s@.len(),
        s@[pos as int] == '\\',
    ensures
        r matches Ok(t) ==> pos < t.1 <= s@.len() && wf_reference(t.0@),
{
    let len = s.unicode_len();
    let m = match scan_marker(s, pos) {
        Ok(m) => m,
        Err(e) => {
            return Err(e);
        },
    };
    if m.star || m.plus || m.num.is_some() {
        return err(pos, "a reference marker");
    }
    let mut i = skip_spaces(s, m.next);
    let (t1, _v1, p1) = match scan_digits(s, i, 65535) {
        Ok(d) => d,
        Err(e) => {
            return Err(e);
        },
    };
    i = p1;
    if i >= len {
        return err(i, "a reference separator");
    }
    let sep = s.get_char(i);
    if sep == '\\' || sep == ' ' || sep == '\t' || sep == '\n' || sep == '\r' {
        return err(i, "a reference separator");
    }
    let sep_text = s.substring_char(i, i + 1).to_owned();
    i += 1;
    let (t2, _v2, p2) = match scan_digits(s, i, 65535) {
        Ok(d) => d,
        Err(e) => {
            return Err(e);
        },
    };
    i = p2;
    let mut ch: Vec<Node> = Vec::new();
    ch.push(leaf(Rule::Num, t1));
    ch.push(leaf(Rule::Sep, sep_text));
    ch.push(leaf(Rule::Num, t2));
    let n = Node { rule: Rule::Ref, text: String::new(), children: ch };
    proof {
        broadcast use lemma_node_view;

        lemma_node_seq_view(n.children@);
        assert(n.children@.len() == 3);
        assert(n@.children[0] == node_view(n.children@[0]));
        assert(n@.children[1] == node_view(n.children@[1]));
        assert(n@.children[2] == node_view(n.children@[2]));
        assert(wf_reference(n@));
    }
    Ok((n, i))
}

/// Scans a note element: its style marker, then text lines and nested
/// character spans, up to its own closing marker (closed form) or the next
/// foreign marker or end of input (open form).
#[verifier::rlimit(100)]
fn scan_note_elem(s: &str, pos: usize, foot: bool) -> (r: Result<(Node, usize), ParseError>)
    requires
        pos < s@.len(),
        s@[pos as int] == '\\',
    ensures
        r matches Ok(t) ==> pos < t.1 <= s@.len() && wf_note_elem(t.0@, foot),
{
    let len = s.unicode_len();
    let m = match scan_marker(s, pos) {
        Ok(m) => m,
        Err(e) => {
            return Err(e);
        },
    };
    if m.star || m.plus || m.num.is_some() {
        return err(pos, "a note element marker");
    }
    let known = if foot {
        try_footnote_element_style(m.tag.as_str()).is_some()
    } else {
        try_cross_ref_element_style(m.tag.as_str()).is_some()
    };
    if !known {
        return err(pos, "a note element marker");
    }
    let tag = m.tag;
    let tag_node = leaf(Rule::Tag, tag.clone());
    let mut body: Vec<Node> = Vec::new();
    proof {
        lemma_node_seq_view(body@);
        lemma_char_items_empty();
        assert(node_seq_view(body@) =~= Seq::<NodeView>::empty());
    }
    let mut i = skip_spaces(s, m.next);
    loop
        invariant_except_break
            node_seq_view(body@).len() > 0 && node_seq_view(body@).last().rule == Rule::Line
                ==> i == len || s@[i as int] == '\\',
        invariant
            pos < i <= len,
            len == s@.len(),
            char_items_ok(node_seq_view(body@)),
        ensures
            pos < i <= len,
            char_items_ok(node_seq_view(body@)),
        decreases len - i,
    {
        if i >= len {
            break;
        }
        let c = s.get_char(i);
        if c == '\\' {
            let m2 = match scan_marker(s, i) {
                Ok(m2) => m2,
                Err(e) => {
                    return Err(e);
                },
            };
            if m2.star {
                if !m2.plus && m2.num.is_none() && str_eq(m2.tag.as_str(), tag.as_str()) {
                    i = m2.next;
                }
                break;
            }
            if m2.plus && m2.num.is_none() && try_character_type(m2.tag.as_str()).is_some() {
                let (child, p) = match scan_character(s, i, true) {
                    Ok(t) => t,
                    Err(e) => {
                        return Err(e);
                    },
                };
                let ghost old_nodes = body@;
                body.push(child);
                proof {
                    lemma_char_item_of_character(child@);
                    lemma_seq_view_push(body@, old_nodes, child);
                    lemma_char_items_push(node_seq_view(old_nodes), child@);
                }
                i = p;
                continue;
            }
            break;
        }
        let (opt, p) = scan_line(s, i, false);
        match opt {
            Some(n2) => {
                let ghost old_nodes = body@;
                body.push(n2);
                proof {
                    lemma_char_item_of_line(n2@);
                    lemma_seq_view_push(body@, old_nodes, n2);
                    lemma_char_items_push(node_seq_view(old_nodes), n2@);
                }
            },
            None => {},
        }
        i = p;
    }
    let mut children: Vec<Node> = Vec::new();
    children.push(tag_node);
    let ghost head = children@;
    let ghost body_seq = body@;
    let mut body = body;
    children.append(&mut body);
    let n = Node { rule: Rule::NoteElem, text: String::new(), children };
    proof {
        broadcast use lemma_node_view;

        reveal(wf_note_elem);
        lemma_container_views(n.children@, head, body_seq);
        lemma_char_items_unpack(node_seq_view(body_seq));
        assert(n@.children[0] == node_view(head[0]));
        assert(n@.children.subrange(1, n@.children.len() as int) == node_seq_view(body_seq));
        assert forall|k: int| 1 <= k < n@.children.len() implies wf_char_item(
            #[trigger] n@.children[k],
        ) && !is_attrib_rule(n@.children[k].rule) by {
            assert(n@.children[k] == n@.children.subrange(1, n@.children.len() as int)[k - 1]);
        }
        assert(wf_note_elem(n@, foot));
    }
    Ok((n, i))
}

/// Scans a footnote (`foot` true) or cross-reference (`foot` false): its
/// container marker, a single-character caller, then references and note
/// elements, up to its own closing marker or — for an open note — the next
/// foreign marker or end of input.
#[verifier::rlimit(100)]
fn scan_note(s: &str, pos: usize, foot: bool) -> (r: Result<(Node, usize), ParseError>)
    requires
        pos < s@.len(),
        s@[pos as int] == '\\',
    ensures
        r matches Ok(t) ==> {
            &&& pos < t.1 <= s@.len()
            &&& t.0@.rule == (if foot {
                Rule::Foot
            } else {
                Rule::Xref
            })
            &&& wf_note(t.0@, foot)
        },
{
    let len = s.unicode_len();
    let m = match scan_marker(s, pos) {
        Ok(m) => m,
        Err(e) => {
            return Err(e);
        },
    };
    if m.star || m.plus || m.num.is_some() {
        return err(pos, "a note marker");
    }
    let known = if foot {
        try_footnote_style(m.tag.as_str()).is_some()
    } else {
        try_cross_ref_style(m.tag.as_str()).is_some()
    };
    if !known {
        return err(pos, "a note marker");
    }
    let tag = m.tag;
    let tag_node = leaf(Rule::Tag, tag.clone());
    let mut i = skip_spaces(s, m.next);
    if i >= len {
        return err(i, "a note caller");
    }
    let c = s.get_char(i);
    if c == '\\' || c == '\n' || c == '\r' {
        return err(i, "a note caller");
    }
    let caller_node = leaf(Rule::CallerSym, s.substring_char(i, i + 1).to_owned());
    i += 1;
    let mut items: Vec<Node> = Vec::new();
    proof {
        lemma_node_seq_view(items@);
        lemma_note_items_empty(foot);
        assert(node_seq_view(items@) =~= Seq::<NodeView>::empty());
    }
    loop
        invariant
            pos < i <= len,
            len == s@.len(),
            note_items_ok(node_seq_view(items@), foot),
        ensures
            pos < i <= len,
            note_items_ok(node_seq_view(items@), foot),
        decreases len - i,
    {
        i = skip_blank(s, i);
        if i >= len {
            break;
        }
        let c2 = s.get_char(i);
        if c2 != '\\' {
            return err(i, "a note element");
        }
        let m2 = match scan_marker(s, i) {
            Ok(m2) => m2,
            Err(e) => {
                return Err(e);
            },
        };
        if m2.star {
            if !m2.plus && m2.num.is_none() && str_eq(m2.tag.as_str(), tag.as_str()) {
                i = m2.next;
            }
            break;
        }
        if m2.plus || m2.num.is_some() {
            break;
        }
        let is_ref = if foot {
            str_eq(m2.tag.as_str(), "fr")
        } else {
            str_eq(m2.tag.as_str(), "xo")
        };
        if is_ref {
            let (child, p) = match scan_reference(s, i) {
                Ok(t) => t,
                Err(e) => {
                    return Err(e);
                },
            };
            let ghost old_items = items@;
            items.push(child);
            proof {
                lemma_note_item_of_reference(child@, foot);
                lemma_seq_view_push(items@, old_items, child);
                lemma_note_items_push(node_seq_view(old_items), child@, foot);
            }
            i = p;
            continue;
        }
        let is_elem = if foot {
            try_footnote_element_style(m2.tag.as_str()).is_some()
        } else {
            try_cross_ref_element_style(m2.tag.as_str()).is_some()
        };
        if is_elem {
            let (child, p) = match scan_note_elem(s, i, foot) {
                Ok(t) => t,
                Err(e) => {
                    return Err(e);
                },
            };
            let ghost old_items = items@;
            items.push(child);
            proof {
                lemma_note_item_of_elem(child@, foot);
                lemma_seq_view_push(items@, old_items, child);
                lemma_note_items_push(node_seq_view(old_items), child@, foot);
            }
            i = p;
            continue;
        }
        break;
    }
    let mut children: Vec<Node> = Vec::new();
    children.push(tag_node);
    children.push(caller_node);
    let ghost head = children@;
    let ghost items_seq = items@;
    let mut items = items;
    children.append(&mut items);
    let n = Node {
        rule: if foot {
            Rule::Foot
        } else {
            Rule::Xref
        },
        text: String::new(),
        children,
    };
    proof {
        broadcast use lemma_node_view;

        lemma_container_views(n.children@, head, items_seq);
        lemma_note_items_unpack(node_seq_view(items_seq), foot);
        assert(n@.children[0] == node_view(head[0]));
        assert(n@.children[1] == node_view(head[1]));
        assert(n@.children.subrange(2, n@.children.len() as int) == node_seq_view(items_seq));
        assert forall|k: int| 2 <= k < n@.children.len() implies wf_note_item(
            #[trigger] n@.children[k],
            foot,
        ) by {
            assert(n@.children[k] == n@.children.subrange(2, n@.children.len() as int)[k - 2]);
        }
        assert(wf_note(n@, foot)) by {
            reveal(wf_note);
        };
    }
    Ok((n, i))
}

/// Handles one marker inside a container body: a verse marker (admitted
/// only where `verses` is true), a character span, a footnote, or a
/// cross-reference opens an item; any other marker ends the body.
fn scan_body_step(s: &str, pos: usize, verses: bool) -> (r: Result<
    Option<(Node, usize)>,
    ParseError,
>)
    requires
        pos < s@.len(),
        s@[pos as int] == '\\',
    ensures
        r matches Ok(t) ==> (t matches Some(item) ==> {
            &&& pos < item.1 <= s@.len()
            &&& wf_body_item(item.0@, verses)
            &&& item.0@.rule != Rule::Line
        }),
{
    let m = match scan_marker(s, pos) {
        Ok(m) => m,
        Err(e) => {
            return Err(e);
        },
    };
    if m.star || m.plus || m.num.is_some() {
        return Ok(None);
    }
    if str_eq(m.tag.as_str(), "v") {
        if !verses {
            return Ok(None);
        }
        let j = skip_spaces(s, m.next);
        let (t1, _v1, p) = match scan_digits(s, j, 65535) {
            Ok(d) => d,
            Err(e) => {
                return Err(e);
            },
        };
        let p2 = skip_spaces(s, p);
        let node = node1(Rule::Verse, leaf(Rule::Num, t1));
        proof {
            reveal(wf_body_item);
        }
        return Ok(Some((node, p2)));
    }
    if try_character_type(m.tag.as_str()).is_some() {
        let (node, p) = match scan_character(s, pos, false) {
            Ok(t) => t,
            Err(e) => {
                return Err(e);
            },
        };
        proof {
            reveal(wf_body_item);
        }
        return Ok(Some((node, p)));
    }
    if try_footnote_style(m.tag.as_str()).is_some() {
        let (node, p) = match scan_note(s, pos, true) {
            Ok(t) => t,
            Err(e) => {
                return Err(e);
            },
        };
        proof {
            reveal(wf_body_item);
        }
        return Ok(Some((node, p)));
    }
    if try_cross_ref_style(m.tag.as_str()).is_some() {
        let (node, p) = match scan_note(s, pos, false) {
            Ok(t) => t,
            Err(e) => {
                return Err(e);
            },
        };
        proof {
            reveal(wf_body_item);
        }
        return Ok(Some((node, p)));
    }
    Ok(None)
}

/// Scans the body of a paragraph, poetry, or element container: verse
/// markers (admitted only where `verses` is true), text lines, character
/// spans, footnotes, and cross-references. The body ends, without consuming
/// it, at the first marker that opens no body item.
#[verifier::rlimit(100)]
fn scan_body(s: &str, pos: usize, verses: bool) -> (r: Result<(Vec<Node>, usize), ParseError>)
    requires
        pos <= s@.len(),
    ensures
        r matches Ok(t) ==> {
            &&& pos <= t.1 <= s@.len()
            &&& wf_body(node_seq_view(t.0@), verses)
        },
{
    let len = s.unicode_len();
    let mut items: Vec<Node> = Vec::new();
    proof {
        lemma_node_seq_view(items@);
        lemma_wf_body_empty(verses);
        assert(node_seq_view(items@) =~= Seq::<NodeView>::empty());
    }
    let mut i = pos;
    loop
        invariant
            pos <= i <= len,
            len == s@.len(),
            wf_body(node_seq_view(items@), verses),
            lines_separated(node_seq_view(items@)),
            node_seq_view(items@).len() > 0 && node_seq_view(items@).last().rule == Rule::Line
                ==> i == len || s@[i as int] == '\\',
        ensures
            pos <= i <= len,
            wf_body(node_seq_view(items@), verses),
        decreases len - i,
    {
        if i >= len {
            break;
        }
        let c = s.get_char(i);
        if c == '\\' {
            let step = match scan_body_step(s, i, verses) {
                Ok(t) => t,
                Err(e) => {
                    return Err(e);
                },
            };
            match step {
                Some((node, p)) => {
                    let ghost old_items = items@;
                    items.push(node);
                    proof {
                        lemma_seq_view_push(items@, old_items, node);
                        lemma_wf_body_push(node_seq_view(old_items), node@, verses);
                    }
                    i = p;
                },
                None => {
                    break;
                },
            }
        } else {
            let (opt, p) = scan_line(s, i, false);
            match opt {
                Some(node) => {
                    let ghost old_items = items@;
                    items.push(node);
                    proof {
                        lemma_body_item_of_line(node@, verses);
                        lemma_seq_view_push(items@, old_items, node);
                        lemma_wf_body_push(node_seq_view(old_items), node@, verses);
                    }
                },
                None => {},
            }
            i = p;
        }
    }
    Ok((items, i))
}

/// Scans a run of characters that is neither blank nor a backslash, such as
/// a book code or an encoding name.
fn scan_token(s: &str, pos: usize) -> (r: Result<(String, usize), ParseError>)
    requires
        pos <= s@.len(),
    ensures
        r matches Ok(t) ==> {
            &&& pos < t.1 <= s@.len()
            &&& t.1 == spec_token_end(s@, pos as int)
            &&& t.0@ == s@.subrange(pos as int, t.1 as int)
        },
        r is Err ==> spec_token_end(s@, pos as int) == pos,
{
    let len = s.unicode_len();
    let mut i = pos;
    while i < len
        invariant
            pos <= i <= len,
            len == s@.len(),
            spec_token_end(s@, pos as int) == spec_token_end(s@, i as int),
        ensures
            pos <= i <= len,
            len == s@.len(),
            spec_token_end(s@, pos as int) == spec_token_end(s@, i as int),
            spec_token_end(s@, i as int) == i,
        decreases len - i,
    {
        let c = s.get_char(i);
        if c == ' ' || c == '\t' || c == '\n' || c == '\r' || c == '\\' {
            break;
        }
        i += 1;
    }
    if i == pos {
        return err(pos, "a token");
    }
    Ok((s.substring_char(pos, i).to_owned(), i))
}

/// Scans the rest of the current line, consuming but not returning its
/// terminating newline.
fn scan_rest_of_line(s: &str, pos: usize) -> (r: (String, usize))
    requires
        pos <= s@.len(),
    ensures
        pos <= r.1 <= s@.len(),
        r.0@ == s@.subrange(pos as int, spec_line_end(s@, pos as int)),
        r.1 == if spec_line_end(s@, pos as int) < s@.len() {
            spec_line_end(s@, pos as int) + 1
        } else {
            spec_line_end(s@, pos as int)
        },
{
    let len = s.unicode_len();
    let mut i = pos;
    while i < len
        invariant
            pos <= i <= len,
            len == s@.len(),
            spec_line_end(s@, pos as int) == spec_line_end(s@, i as int),
        ensures
            pos <= i <= len,
            len == s@.len(),
            spec_line_end(s@, pos as int) == spec_line_end(s@, i as int),
            spec_line_end(s@, i as int) == i,
        decreases len - i,
    {
        if s.get_char(i) == '\n' {
            break;
        }
        i += 1;
    }
    let text = s.substring_char(pos, i).to_owned();
    if i < len {
        (text, i + 1)
    } else {
        (text, i)
    }
}

/// Recognises a whole document: the identification entry, then every
/// top-level entry in order. Succeeds with the rule tree, every node of
/// which is well formed and whose first node is the identification entry;
/// fails with a diagnostic at the first position that fits no production.
#[verifier::rlimit(100)]
pub fn scan_book(s: &str) -> (r: Result<Vec<Node>, ParseError>)
    ensures
        r matches Ok(v) ==> {
            &&& v@.len() >= 1
            &&& node_seq_view(v@).len() == v@.len()
            &&& node_seq_view(v@)[0].rule == Rule::Id
            &&& forall|k: int|
                1 <= k < v@.len() ==> (#[trigger] node_seq_view(v@)[k]).rule != Rule::Id
            &&& forall|k: int|
                0 <= k < v@.len() ==> wf_book_item(#[trigger] node_seq_view(v@)[k])
            &&& id_head_ok(s@)
            &&& node_seq_view(v@)[0].children.len() == 2
            &&& node_seq_view(v@)[0].children[0].text == id_code_of(s@)
            &&& node_seq_view(v@)[0].children[1].text == id_text_of(s@)
            &&& (spec_skip_blank(s@, id_end(s@)) == s@.len() ==> v@.len() == 1)
        },
{
    let len = s.unicode_len();
    let mut i = skip_blank(s, 0);
    let ghost p0 = i as int;
    if i >= len {
        return err(i, "an identification entry");
    }
    if s.get_char(i) != '\\' {
        return err(i, "an identification entry");
    }
    let m = match scan_marker(s, i) {
        Ok(m) => m,
        Err(e) => {
            return Err(e);
        },
    };
    if m.plus || m.star || m.num.is_some() || !str_eq(m.tag.as_str(), "id") {
        return err(i, "an identification entry");
    }
    proof {
        reveal_strlit("id");
        assert(spec_letters_end(s@, p0 + 1) == p0 + 3) by {
            assert(m.tag@ == s@.subrange(p0 + 1, spec_letters_end(s@, p0 + 1)));
            assert(m.tag@.len() == 2);
        };
        assert(s@.subrange(p0 + 1, p0 + 3) == "id"@);
    }
    let j = skip_spaces(s, m.next);
    proof {
        assert(j == id_code_start(s@));
    }
    let (code, p1) = match scan_token(s, j) {
        Ok(t) => t,
        Err(e) => {
            return Err(e);
        },
    };
    if try_book_identifier(code.as_str()).is_none() {
        return err(j, "a book code");
    }
    proof {
        assert(code@ == id_code_of(s@));
        assert(id_head_ok(s@));
    }
    let j2 = skip_spaces(s, p1);
    let (text, p2) = scan_rest_of_line(s, j2);
    proof {
        assert(j2 == id_text_start(s@));
        assert(text@ == id_text_of(s@));
    }
    i = p2;
    proof {
        assert(i as int == id_end(s@));
    }
    let mut ch: Vec<Node> = Vec::new();
    ch.push(leaf(Rule::Tag, code));
    ch.push(leaf(Rule::Text, text));
    let id_node = Node { rule: Rule::Id, text: String::new(), children: ch };
    proof {
        broadcast use lemma_node_view;

        reveal(wf_book_item);
        lemma_node_seq_view(id_node.children@);
        assert(wf_book_item(id_node@));
        assert(id_node@.children.len() == 2);
        assert(id_node@.children[0].text == id_code_of(s@));
        assert(id_node@.children[1].text == id_text_of(s@));
    }
    let ghost id_view = id_node@;
    let mut items: Vec<Node> = Vec::new();
    items.push(id_node);
    proof {
        lemma_node_seq_view(items@);
    }
    loop
        invariant
            i <= len,
            len == s@.len(),
            items@.len() >= 1,
            node_seq_view(items@).len() == items@.len(),
            node_seq_view(items@)[0] == id_view,
            node_seq_view(items@)[0].rule == Rule::Id,
            id_head_ok(s@),
            id_view.children.len() == 2,
            id_view.children[0].text == id_code_of(s@),
            id_view.children[1].text == id_text_of(s@),
            items@.len() == 1 ==> spec_skip_blank(s@, i as int) == spec_skip_blank(
                s@,
                id_end(s@),
            ),
            spec_skip_blank(s@, id_end(s@)) == s@.len() ==> items@.len() == 1,
            forall|k: int|
                1 <= k < items@.len() ==> (#[trigger] node_seq_view(items@)[k]).rule != Rule::Id,
            forall|k: int|
                0 <= k < items@.len() ==> wf_book_item(#[trigger] node_seq_view(items@)[k]),
        ensures
            items@.len() >= 1,
            node_seq_view(items@).len() == items@.len(),
            node_seq_view(items@)[0] == id_view,
            node_seq_view(items@)[0].rule == Rule::Id,
            id_head_ok(s@),
            id_view.children.len() == 2,
            id_view.children[0].text == id_code_of(s@),
            id_view.children[1].text == id_text_of(s@),
            spec_skip_blank(s@, id_end(s@)) == s@.len() ==> items@.len() == 1,
            forall|k: int|
                1 <= k < items@.len() ==> (#[trigger] node_seq_view(items@)[k]).rule != Rule::Id,
            forall|k: int|
                0 <= k < items@.len() ==> wf_book_item(#[trigger] node_seq_view(items@)[k]),
        decreases len - i,
    {
        let ghost i_prev = i as int;
        i = skip_blank(s, i);
        proof {
            lemma_skip_blank_idem(s@, i_prev);
        }
        if i >= len {
            break;
        }
        if s.get_char(i) != '\\' {
            return err(i, "a marker");
        }
        let m2 = match scan_marker(s, i) {
            Ok(m2) => m2,
            Err(e) => {
                return Err(e);
            },
        };
        if m2.plus || m2.star {
            return err(i, "a top-level marker");
        }
        let node: Node;
        let next: usize;
        match m2.num {
            Some((num_text, num_val)) => {
                let num_node = leaf(Rule::Num, num_text);
                let rule: Rule;
                if try_numbered_paragraph_style(m2.tag.as_str(), num_val).is_some() {
                    rule = Rule::ParaNum;
                } else if try_numbered_poetry_style(m2.tag.as_str(), num_val).is_some() {
                    rule = Rule::PoemNum;
                } else if try_numbered_element_type(m2.tag.as_str(), num_val).is_some() {
                    rule = Rule::ElemNum;
                } else {
                    return err(i, "a numbered container marker");
                }
                let verses = match rule {
                    Rule::ElemNum => false,
                    _ => true,
                };
                let body_start = skip_spaces(s, m2.next);
                let (body, p) = match scan_body(s, body_start, verses) {
                    Ok(t) => t,
                    Err(e) => {
                        return Err(e);
                    },
                };
                let tag_node = leaf(Rule::Tag, m2.tag);
                let mut children: Vec<Node> = Vec::new();
                children.push(tag_node);
                children.push(num_node);
                let ghost head = children@;
                let ghost body_seq = body@;
                let mut body = body;
                children.append(&mut body);
                let n = Node { rule, text: String::new(), children };
                proof {
                    broadcast use lemma_node_view;

                    reveal(wf_book_item);
                    lemma_container_views(n.children@, head, body_seq);
                    assert(n@.children[0] == node_view(head[0]));
                    assert(n@.children[1] == node_view(head[1]));
                    assert(n@.children.subrange(2, n@.children.len() as int) == node_seq_view(
                        body_seq,
                    ));
                    assert(wf_book_item(n@));
                }
                node = n;
                next = p;
            },
            None => {
                if str_eq(m2.tag.as_str(), "id") {
                    return err(i, "a top-level marker other than the identification entry");
                } else if str_eq(m2.tag.as_str(), "usfm") {
                    let j3 = skip_spaces(s, m2.next);
                    let (text2, p) = scan_rest_of_line(s, j3);
                    node = node1(Rule::Usfm, leaf(Rule::Text, text2));
                    next = p;
                } else if str_eq(m2.tag.as_str(), "ide") {
                    let j3 = skip_spaces(s, m2.next);
                    let (enc, p) = match scan_token(s, j3) {
                        Ok(t) => t,
                        Err(e) => {
                            return Err(e);
                        },
                    };
                    if try_book_encoding(enc.as_str()).is_none() {
                        return err(j3, "an encoding name");
                    }
                    node = node1(Rule::Ide, leaf(Rule::Tag, enc));
                    next = p;
                } else if str_eq(m2.tag.as_str(), "sts") || str_eq(m2.tag.as_str(), "c")
                    || str_eq(m2.tag.as_str(), "ca") {
                    let j3 = skip_spaces(s, m2.next);
                    let (t1, _v1, p) = match scan_digits(s, j3, 65535) {
                        Ok(d) => d,
                        Err(e) => {
                            return Err(e);
                        },
                    };
                    let rule = if str_eq(m2.tag.as_str(), "sts") {
                        Rule::Sts
                    } else if str_eq(m2.tag.as_str(), "c") {
                        Rule::Chap
                    } else {
                        Rule::ChapAlt
                    };
                    node = node1(rule, leaf(Rule::Num, t1));
                    next = p;
                } else if try_empty_type(m2.tag.as_str()).is_some() {
                    node = node1(Rule::Empty, leaf(Rule::Tag, m2.tag));
                    next = m2.next;
                } else {
                    let rule: Rule;
                    let verses: bool;
                    if try_paragraph_style(m2.tag.as_str()).is_some() {
                        rule = Rule::Para;
                        verses = true;
                    } else if try_poetry_style(m2.tag.as_str()).is_some() {
                        rule = Rule::Poem;
                        verses = true;
                    } else if try_element_type(m2.tag.as_str()).is_some() {
                        rule = Rule::Elem;
                        verses = false;
                    } else {
                        return err(i, "a top-level marker");
                    }
                    let body_start = skip_spaces(s, m2.next);
                    let (body, p) = match scan_body(s, body_start, verses) {
                        Ok(t) => t,
                        Err(e) => {
                            return Err(e);
                        },
                    };
                    let tag_node = leaf(Rule::Tag, m2.tag);
                    let mut children: Vec<Node> = Vec::new();
                    children.push(tag_node);
                    let ghost head = children@;
                    let ghost body_seq = body@;
                    let mut body = body;
                    children.append(&mut body);
                    let n = Node { rule, text: String::new(), children };
                    proof {
                        broadcast use lemma_node_view;

                        reveal(wf_book_item);
                        lemma_container_views(n.children@, head, body_seq);
                        assert(n@.children[0] == node_view(head[0]));
                        assert(n@.children.subrange(1, n@.children.len() as int) == node_seq_view(
                            body_seq,
                        ));
                        assert(wf_book_item(n@));
                    }
                    node = n;
                    next = p;
                }
            },
        }
        let ghost old_items = items@;
        items.push(node);
        proof {
            reveal(wf_book_item);
            lemma_seq_view_push(items@, old_items, node);
            assert(node@.rule != Rule::Id);
        }
        i = next;
    }
    Ok(items)
}

} // verus!
