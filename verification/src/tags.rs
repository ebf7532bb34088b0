//! The normative tag tables: for every marker family, the total map from
//! tag text to its closed enumeration, as a spec-level map, a total
//! executable lookup, and a lookup restricted to known tags.

use vstd::prelude::*;
use crate::usfm::{
    BookEncoding, BookIdentifier, Caller, CharacterType, CrossRefElementStyle, CrossRefStyle,
    ElementType, EmptyType, FootnoteElementStyle, FootnoteStyle, ParagraphStyle, PoetryStyle,
};

verus! {

/// Whether the views of two string slices are equal, decided character by
/// character.
pub fn str_eq(a: &str, b: &str) -> (r: bool)
    ensures
        r == (a@ == b@),
{
    let alen = a.unicode_len();
    let blen = b.unicode_len();
    if alen != blen {
        return false;
    }
    let mut i: usize = 0;
    while i < alen
        invariant
            alen == a@.len(),
            blen == b@.len(),
            alen == blen,
            i <= alen,
            forall|j: int| 0 <= j < i ==> a@[j] == b@[j],
        decreases alen - i,
    {
        if a.get_char(i) != b.get_char(i) {
            return false;
        }
        i += 1;
    }
    proof {
        assert(a@ =~= b@);
    }
    true
}

/// The caller class of a raw caller character: `+` asks for automatic
/// numbering, `-` suppresses the glyph, anything else is rendered literally.
pub open spec fn caller_of(c: char) -> Caller {
    if c == '+' {
        Caller::Auto
    } else if c == '-' {
        Caller::Suppressed
    } else {
        Caller::Literal(c)
    }
}

/// Classifies a raw caller character: `Auto` exactly for `+`, `Suppressed`
/// exactly for `-`, and the literal character itself otherwise.
pub fn to_caller(c: char) -> (r: Caller)
    ensures
        r == caller_of(c),
        r is Auto <==> c == '+',
        r is Suppressed <==> c == '-',
        c != '+' && c != '-' ==> r == Caller::Literal(c),
{
    if c == '+' {
        Caller::Auto
    } else if c == '-' {
        Caller::Suppressed
    } else {
        Caller::Literal(c)
    }
}

/// The paragraph style a tag text denotes, if any.
#[verifier::opaque]
pub open spec fn paragraph_style_of(s: Seq<char>) -> Option<ParagraphStyle> {
    if s == "p"@ {
        Some(ParagraphStyle::Normal)
    } else if s == "m"@ {
        Some(ParagraphStyle::Margin)
    } else if s == "po"@ {
        Some(ParagraphStyle::Opening)
    } else if s == "pr"@ {
        Some(ParagraphStyle::Right)
    } else if s == "cls"@ {
        Some(ParagraphStyle::Closure)
    } else if s == "pmo"@ {
        Some(ParagraphStyle::EmbeddedOpening)
    } else if s == "pm"@ {
        Some(ParagraphStyle::Embedded)
    } else if s == "pmc"@ {
        Some(ParagraphStyle::EmbeddedClosing)
    } else if s == "pmr"@ {
        Some(ParagraphStyle::EmbeddedRefrain)
    } else if s == "mi"@ {
        Some(ParagraphStyle::MarginIndented)
    } else if s == "nb"@ {
        Some(ParagraphStyle::Basic)
    } else if s == "pc"@ {
        Some(ParagraphStyle::Centered)
    } else if s == "lit"@ {
        Some(ParagraphStyle::LiturgicalNote)
    } else {
        None
    }
}

/// Looks a tag up in the paragraph style table.
pub fn try_paragraph_style(s: &str) -> (r: Option<ParagraphStyle>)
    ensures
        r == paragraph_style_of(s@),
{
    proof {
        reveal(paragraph_style_of);
    }
    if str_eq(s, "p") {
        Some(ParagraphStyle::Normal)
    } else if str_eq(s, "m") {
        Some(ParagraphStyle::Margin)
    } else if str_eq(s, "po") {
        Some(ParagraphStyle::Opening)
    } else if str_eq(s, "pr") {
        Some(ParagraphStyle::Right)
    } else if str_eq(s, "cls") {
        Some(ParagraphStyle::Closure)
    } else if str_eq(s, "pmo") {
        Some(ParagraphStyle::EmbeddedOpening)
    } else if str_eq(s, "pm") {
        Some(ParagraphStyle::Embedded)
    } else if str_eq(s, "pmc") {
        Some(ParagraphStyle::EmbeddedClosing)
    } else if str_eq(s, "pmr") {
        Some(ParagraphStyle::EmbeddedRefrain)
    } else if str_eq(s, "mi") {
        Some(ParagraphStyle::MarginIndented)
    } else if str_eq(s, "nb") {
        Some(ParagraphStyle::Basic)
    } else if str_eq(s, "pc") {
        Some(ParagraphStyle::Centered)
    } else if str_eq(s, "lit") {
        Some(ParagraphStyle::LiturgicalNote)
    } else {
        None
    }
}

/// Maps a known tag to its paragraph style.
pub fn to_paragraph_style(s: &str) -> (r: ParagraphStyle)
    requires
        paragraph_style_of(s@) is Some,
    ensures
        paragraph_style_of(s@) == Some(r),
{
    try_paragraph_style(s).unwrap()
}

/// The paragraph style a numbered tag text and its level denote, if any.
#[verifier::opaque]
pub open spec fn numbered_paragraph_style_of(s: Seq<char>, n: u8) -> Option<ParagraphStyle> {
    if s == "pi"@ {
        Some(ParagraphStyle::Indented(n))
    } else if s == "ph"@ {
        Some(ParagraphStyle::HangingIndented(n))
    } else {
        None
    }
}

/// Looks a numbered tag up in the paragraph style table.
pub fn try_numbered_paragraph_style(s: &str, n: u8) -> (r: Option<ParagraphStyle>)
    ensures
        r == numbered_paragraph_style_of(s@, n),
{
    proof {
        reveal(numbered_paragraph_style_of);
    }
    if str_eq(s, "pi") {
        Some(ParagraphStyle::Indented(n))
    } else if str_eq(s, "ph") {
        Some(ParagraphStyle::HangingIndented(n))
    } else {
        None
    }
}

/// Maps a known numbered tag to its paragraph style.
pub fn to_numbered_paragraph_style(s: &str, n: u8) -> (r: ParagraphStyle)
    requires
        numbered_paragraph_style_of(s@, n) is Some,
    ensures
        numbered_paragraph_style_of(s@, n) == Some(r),
{
    try_numbered_paragraph_style(s, n).unwrap()
}

/// The poetry style a tag text denotes, if any.
#[verifier::opaque]
pub open spec fn poetry_style_of(s: Seq<char>) -> Option<PoetryStyle> {
    if s == "qr"@ {
        Some(PoetryStyle::Right)
    } else if s == "qc"@ {
        Some(PoetryStyle::Centered)
    } else if s == "qa"@ {
        Some(PoetryStyle::AcrosticHeading)
    } else if s == "qd"@ {
        Some(PoetryStyle::Descriptive)
    } else {
        None
    }
}

/// Looks a tag up in the poetry style table.
pub fn try_poetry_style(s: &str) -> (r: Option<PoetryStyle>)
    ensures
        r == poetry_style_of(s@),
{
    proof {
        reveal(poetry_style_of);
    }
    if str_eq(s, "qr") {
        Some(PoetryStyle::Right)
    } else if str_eq(s, "qc") {
        Some(PoetryStyle::Centered)
    } else if str_eq(s, "qa") {
        Some(PoetryStyle::AcrosticHeading)
    } else if str_eq(s, "qd") {
        Some(PoetryStyle::Descriptive)
    } else {
        None
    }
}

/// Maps a known tag to its poetry style.
pub fn to_poetry_style(s: &str) -> (r: PoetryStyle)
    requires
        poetry_style_of(s@) is Some,
    ensures
        poetry_style_of(s@) == Some(r),
{
    try_poetry_style(s).unwrap()
}

/// The poetry style a numbered tag text and its level denote, if any.
#[verifier::opaque]
pub open spec fn numbered_poetry_style_of(s: Seq<char>, n: u8) -> Option<PoetryStyle> {
    if s == "q"@ {
        Some(PoetryStyle::Normal(n))
    } else if s == "qm"@ {
        Some(PoetryStyle::Embedded(n))
    } else {
        None
    }
}

/// Looks a numbered tag up in the poetry style table.
pub fn try_numbered_poetry_style(s: &str, n: u8) -> (r: Option<PoetryStyle>)
    ensures
        r == numbered_poetry_style_of(s@, n),
{
    proof {
        reveal(numbered_poetry_style_of);
    }
    if str_eq(s, "q") {
        Some(PoetryStyle::Normal(n))
    } else if str_eq(s, "qm") {
        Some(PoetryStyle::Embedded(n))
    } else {
        None
    }
}

/// Maps a known numbered tag to its poetry style.
pub fn to_numbered_poetry_style(s: &str, n: u8) -> (r: PoetryStyle)
    requires
        numbered_poetry_style_of(s@, n) is Some,
    ensures
        numbered_poetry_style_of(s@, n) == Some(r),
{
    try_numbered_poetry_style(s, n).unwrap()
}

/// The element type a tag text denotes, if any.
#[verifier::opaque]
pub open spec fn element_type_of(s: Seq<char>) -> Option<ElementType> {
    if s == "rem"@ {
        Some(ElementType::Remark)
    } else if s == "h"@ {
        Some(ElementType::Header)
    } else if s == "ip"@ {
        Some(ElementType::Intro)
    } else if s == "ipi"@ {
        Some(ElementType::IndentedIntro)
    } else if s == "im"@ {
        Some(ElementType::MarginIntro)
    } else if s == "imi"@ {
        Some(ElementType::MarginIndentedIntro)
    } else if s == "ipq"@ {
        Some(ElementType::QuotedIntro)
    } else if s == "imq"@ {
        Some(ElementType::MarginQuotedIntro)
    } else if s == "ipr"@ {
        Some(ElementType::RightIntro)
    } else if s == "ib"@ {
        Some(ElementType::BlankIntro)
    } else if s == "iot"@ {
        Some(ElementType::OutlineIntro)
    } else if s == "iex"@ {
        Some(ElementType::BridgeIntro)
    } else if s == "ie"@ {
        Some(ElementType::EndIntro)
    } else if s == "cl"@ {
        Some(ElementType::ChapterLabel)
    } else if s == "cp"@ {
        Some(ElementType::ChapterPublishedLabel)
    } else if s == "cd"@ {
        Some(ElementType::ChapterDescription)
    } else if s == "mr"@ {
        Some(ElementType::MajorReference)
    } else if s == "sr"@ {
        Some(ElementType::Reference)
    } else if s == "r"@ {
        Some(ElementType::Parallel)
    } else if s == "d"@ {
        Some(ElementType::Descriptive)
    } else if s == "sp"@ {
        Some(ElementType::Speaker)
    } else {
        None
    }
}

/// Looks a tag up in the element type table.
pub fn try_element_type(s: &str) -> (r: Option<ElementType>)
    ensures
        r == element_type_of(s@),
{
    proof {
        reveal(element_type_of);
    }
    if str_eq(s, "rem") {
        Some(ElementType::Remark)
    } else if str_eq(s, "h") {
        Some(ElementType::Header)
    } else if str_eq(s, "ip") {
        Some(ElementType::Intro)
    } else if str_eq(s, "ipi") {
        Some(ElementType::IndentedIntro)
    } else if str_eq(s, "im") {
        Some(ElementType::MarginIntro)
    } else if str_eq(s, "imi") {
        Some(ElementType::MarginIndentedIntro)
    } else if str_eq(s, "ipq") {
        Some(ElementType::QuotedIntro)
    } else if str_eq(s, "imq") {
        Some(ElementType::MarginQuotedIntro)
    } else if str_eq(s, "ipr") {
        Some(ElementType::RightIntro)
    } else if str_eq(s, "ib") {
        Some(ElementType::BlankIntro)
    } else if str_eq(s, "iot") {
        Some(ElementType::OutlineIntro)
    } else if str_eq(s, "iex") {
        Some(ElementType::BridgeIntro)
    } else if str_eq(s, "ie") {
        Some(ElementType::EndIntro)
    } else if str_eq(s, "cl") {
        Some(ElementType::ChapterLabel)
    } else if str_eq(s, "cp") {
        Some(ElementType::ChapterPublishedLabel)
    } else if str_eq(s, "cd") {
        Some(ElementType::ChapterDescription)
    } else if str_eq(s, "mr") {
        Some(ElementType::MajorReference)
    } else if str_eq(s, "sr") {
        Some(ElementType::Reference)
    } else if str_eq(s, "r") {
        Some(ElementType::Parallel)
    } else if str_eq(s, "d") {
        Some(ElementType::Descriptive)
    } else if str_eq(s, "sp") {
        Some(ElementType::Speaker)
    } else {
        None
    }
}

/// Maps a known tag to its element type.
pub fn to_element_type(s: &str) -> (r: ElementType)
    requires
        element_type_of(s@) is Some,
    ensures
        element_type_of(s@) == Some(r),
{
    try_element_type(s).unwrap()
}

/// The element type a numbered tag text and its level denote, if any.
#[verifier::opaque]
pub open spec fn numbered_element_type_of(s: Seq<char>, n: u8) -> Option<ElementType> {
    if s == "toc"@ {
        Some(ElementType::Contents(n))
    } else if s == "toca"@ {
        Some(ElementType::AltContents(n))
    } else if s == "imt"@ {
        Some(ElementType::MajorIntro(n))
    } else if s == "is"@ {
        Some(ElementType::SectionIntro(n))
    } else if s == "iq"@ {
        Some(ElementType::PoetryIntro(n))
    } else if s == "ili"@ {
        Some(ElementType::ListIntro(n))
    } else if s == "io"@ {
        Some(ElementType::EntryIntro(n))
    } else if s == "imte"@ {
        Some(ElementType::MajorTitleEndingIntro(n))
    } else if s == "mt"@ {
        Some(ElementType::MajorTitle(n))
    } else if s == "mte"@ {
        Some(ElementType::MajorTitleEnding(n))
    } else if s == "ms"@ {
        Some(ElementType::MajorSection(n))
    } else if s == "s"@ {
        Some(ElementType::Section(n))
    } else if s == "sd"@ {
        Some(ElementType::Division(n))
    } else {
        None
    }
}

/// Looks a numbered tag up in the element type table.
pub fn try_numbered_element_type(s: &str, n: u8) -> (r: Option<ElementType>)
    ensures
        r == numbered_element_type_of(s@, n),
{
    proof {
        reveal(numbered_element_type_of);
    }
    if str_eq(s, "toc") {
        Some(ElementType::Contents(n))
    } else if str_eq(s, "toca") {
        Some(ElementType::AltContents(n))
    } else if str_eq(s, "imt") {
        Some(ElementType::MajorIntro(n))
    } else if str_eq(s, "is") {
        Some(ElementType::SectionIntro(n))
    } else if str_eq(s, "iq") {
        Some(ElementType::PoetryIntro(n))
    } else if str_eq(s, "ili") {
        Some(ElementType::ListIntro(n))
    } else if str_eq(s, "io") {
        Some(ElementType::EntryIntro(n))
    } else if str_eq(s, "imte") {
        Some(ElementType::MajorTitleEndingIntro(n))
    } else if str_eq(s, "mt") {
        Some(ElementType::MajorTitle(n))
    } else if str_eq(s, "mte") {
        Some(ElementType::MajorTitleEnding(n))
    } else if str_eq(s, "ms") {
        Some(ElementType::MajorSection(n))
    } else if str_eq(s, "s") {
        Some(ElementType::Section(n))
    } else if str_eq(s, "sd") {
        Some(ElementType::Division(n))
    } else {
        None
    }
}

/// Maps a known numbered tag to its element type.
pub fn to_numbered_element_type(s: &str, n: u8) -> (r: ElementType)
    requires
        numbered_element_type_of(s@, n) is Some,
    ensures
        numbered_element_type_of(s@, n) == Some(r),
{
    try_numbered_element_type(s, n).unwrap()
}

/// The empty-marker type a tag text denotes, if any.
#[verifier::opaque]
pub open spec fn empty_type_of(s: Seq<char>) -> Option<EmptyType> {
    if s == "b"@ {
        Some(EmptyType::Blank)
    } else if s == "pb"@ {
        Some(EmptyType::PageBreak)
    } else {
        None
    }
}

/// Looks a tag up in the empty-marker type table.
pub fn try_empty_type(s: &str) -> (r: Option<EmptyType>)
    ensures
        r == empty_type_of(s@),
{
    proof {
        reveal(empty_type_of);
    }
    if str_eq(s, "b") {
        Some(EmptyType::Blank)
    } else if str_eq(s, "pb") {
        Some(EmptyType::PageBreak)
    } else {
        None
    }
}

/// Maps a known tag to its empty-marker type.
pub fn to_empty_type(s: &str) -> (r: EmptyType)
    requires
        empty_type_of(s@) is Some,
    ensures
        empty_type_of(s@) == Some(r),
{
    try_empty_type(s).unwrap()
}

/// The character style a tag text denotes, if any.
#[verifier::opaque]
pub open spec fn character_type_of(s: Seq<char>) -> Option<CharacterType> {
    if s == "ior"@ {
        Some(CharacterType::IntroOutline)
    } else if s == "iqt"@ {
        Some(CharacterType::IntroQuote)
    } else if s == "rq"@ {
        Some(CharacterType::InlineQuote)
    } else if s == "vp"@ {
        Some(CharacterType::PublishedVerse)
    } else if s == "qs"@ {
        Some(CharacterType::Selah)
    } else if s == "qac"@ {
        Some(CharacterType::AcrosticLetter)
    } else if s == "add"@ {
        Some(CharacterType::Addition)
    } else if s == "bk"@ {
        Some(CharacterType::BookQuote)
    } else if s == "dc"@ {
        Some(CharacterType::DeuteroAddition)
    } else if s == "k"@ {
        Some(CharacterType::Keyword)
    } else if s == "nd"@ {
        Some(CharacterType::Deity)
    } else if s == "ord"@ {
        Some(CharacterType::Ordinal)
    } else if s == "pn"@ {
        Some(CharacterType::Proper)
    } else if s == "png"@ {
        Some(CharacterType::Geographic)
    } else if s == "addpn"@ {
        Some(CharacterType::ProperAddition)
    } else if s == "qt"@ {
        Some(CharacterType::QuotedText)
    } else if s == "sig"@ {
        Some(CharacterType::Signature)
    } else if s == "sls"@ {
        Some(CharacterType::SecondaryText)
    } else if s == "tl"@ {
        Some(CharacterType::Transliterated)
    } else if s == "wj"@ {
        Some(CharacterType::Jesus)
    } else if s == "em"@ {
        Some(CharacterType::Emphasis)
    } else if s == "bd"@ {
        Some(CharacterType::Bold)
    } else if s == "it"@ {
        Some(CharacterType::Italic)
    } else if s == "bdit"@ {
        Some(CharacterType::BoldItalic)
    } else if s == "no"@ {
        Some(CharacterType::Normal)
    } else if s == "sc"@ {
        Some(CharacterType::SmallCap)
    } else if s == "sup"@ {
        Some(CharacterType::Superscipt)
    } else if s == "ndx"@ {
        Some(CharacterType::Index)
    } else if s == "rb"@ {
        Some(CharacterType::Ruby)
    } else if s == "pro"@ {
        Some(CharacterType::Pronunciation)
    } else if s == "w"@ {
        Some(CharacterType::Word)
    } else if s == "wg"@ {
        Some(CharacterType::GreekWord)
    } else if s == "wh"@ {
        Some(CharacterType::HebrewWord)
    } else if s == "wa"@ {
        Some(CharacterType::AramaicWord)
    } else if s == "jmp"@ {
        Some(CharacterType::Link)
    } else {
        None
    }
}

/// Looks a tag up in the character style table.
pub fn try_character_type(s: &str) -> (r: Option<CharacterType>)
    ensures
        r == character_type_of(s@),
{
    proof {
        reveal(character_type_of);
    }
    if str_eq(s, "ior") {
        Some(CharacterType::IntroOutline)
    } else if str_eq(s, "iqt") {
        Some(CharacterType::IntroQuote)
    } else if str_eq(s, "rq") {
        Some(CharacterType::InlineQuote)
    } else if str_eq(s, "vp") {
        Some(CharacterType::PublishedVerse)
    } else if str_eq(s, "qs") {
        Some(CharacterType::Selah)
    } else if str_eq(s, "qac") {
        Some(CharacterType::AcrosticLetter)
    } else if str_eq(s, "add") {
        Some(CharacterType::Addition)
    } else if str_eq(s, "bk") {
        Some(CharacterType::BookQuote)
    } else if str_eq(s, "dc") {
        Some(CharacterType::DeuteroAddition)
    } else if str_eq(s, "k") {
        Some(CharacterType::Keyword)
    } else if str_eq(s, "nd") {
        Some(CharacterType::Deity)
    } else if str_eq(s, "ord") {
        Some(CharacterType::Ordinal)
    } else if str_eq(s, "pn") {
        Some(CharacterType::Proper)
    } else if str_eq(s, "png") {
        Some(CharacterType::Geographic)
    } else if str_eq(s, "addpn") {
        Some(CharacterType::ProperAddition)
    } else if str_eq(s, "qt") {
        Some(CharacterType::QuotedText)
    } else if str_eq(s, "sig") {
        Some(CharacterType::Signature)
    } else if str_eq(s, "sls") {
        Some(CharacterType::SecondaryText)
    } else if str_eq(s, "tl") {
        Some(CharacterType::Transliterated)
    } else if str_eq(s, "wj") {
        Some(CharacterType::Jesus)
    } else if str_eq(s, "em") {
        Some(CharacterType::Emphasis)
    } else if str_eq(s, "bd") {
        Some(CharacterType::Bold)
    } else if str_eq(s, "it") {
        Some(CharacterType::Italic)
    } else if str_eq(s, "bdit") {
        Some(CharacterType::BoldItalic)
    } else if str_eq(s, "no") {
        Some(CharacterType::Normal)
    } else if str_eq(s, "sc") {
        Some(CharacterType::SmallCap)
    } else if str_eq(s, "sup") {
        Some(CharacterType::Superscipt)
    } else if str_eq(s, "ndx") {
        Some(CharacterType::Index)
    } else if str_eq(s, "rb") {
        Some(CharacterType::Ruby)
    } else if str_eq(s, "pro") {
        Some(CharacterType::Pronunciation)
    } else if str_eq(s, "w") {
        Some(CharacterType::Word)
    } else if str_eq(s, "wg") {
        Some(CharacterType::GreekWord)
    } else if str_eq(s, "wh") {
        Some(CharacterType::HebrewWord)
    } else if str_eq(s, "wa") {
        Some(CharacterType::AramaicWord)
    } else if str_eq(s, "jmp") {
        Some(CharacterType::Link)
    } else {
        None
    }
}

/// Maps a known tag to its character style.
pub fn to_character_type(s: &str) -> (r: CharacterType)
    requires
        character_type_of(s@) is Some,
    ensures
        character_type_of(s@) == Some(r),
{
    try_character_type(s).unwrap()
}

/// The footnote container style a tag text denotes, if any.
#[verifier::opaque]
pub open spec fn footnote_style_of(s: Seq<char>) -> Option<FootnoteStyle> {
    if s == "f"@ {
        Some(FootnoteStyle::Footnote)
    } else if s == "fe"@ {
        Some(FootnoteStyle::Endnote)
    } else {
        None
    }
}

/// Looks a tag up in the footnote container style table.
pub fn try_footnote_style(s: &str) -> (r: Option<FootnoteStyle>)
    ensures
        r == footnote_style_of(s@),
{
    proof {
        reveal(footnote_style_of);
    }
    if str_eq(s, "f") {
        Some(FootnoteStyle::Footnote)
    } else if str_eq(s, "fe") {
        Some(FootnoteStyle::Endnote)
    } else {
        None
    }
}

/// Maps a known tag to its footnote container style.
pub fn to_footnote_style(s: &str) -> (r: FootnoteStyle)
    requires
        footnote_style_of(s@) is Some,
    ensures
        footnote_style_of(s@) == Some(r),
{
    try_footnote_style(s).unwrap()
}

/// The cross-reference container style a tag text denotes, if any.
#[verifier::opaque]
pub open spec fn cross_ref_style_of(s: Seq<char>) -> Option<CrossRefStyle> {
    if s == "x"@ {
        Some(CrossRefStyle::CrossRef)
    } else {
        None
    }
}

/// Looks a tag up in the cross-reference container style table.
pub fn try_cross_ref_style(s: &str) -> (r: Option<CrossRefStyle>)
    ensures
        r == cross_ref_style_of(s@),
{
    proof {
        reveal(cross_ref_style_of);
    }
    if str_eq(s, "x") {
        Some(CrossRefStyle::CrossRef)
    } else {
        None
    }
}

/// Maps a known tag to its cross-reference container style.
pub fn to_cross_ref_style(s: &str) -> (r: CrossRefStyle)
    requires
        cross_ref_style_of(s@) is Some,
    ensures
        cross_ref_style_of(s@) == Some(r),
{
    try_cross_ref_style(s).unwrap()
}

/// The footnote element style a tag text denotes, if any.
#[verifier::opaque]
pub open spec fn footnote_element_style_of(s: Seq<char>) -> Option<FootnoteElementStyle> {
    if s == "fq"@ {
        Some(FootnoteElementStyle::TranslationQuote)
    } else if s == "fqa"@ {
        Some(FootnoteElementStyle::AltTranslationQuote)
    } else if s == "fk"@ {
        Some(FootnoteElementStyle::Keyword)
    } else if s == "fl"@ {
        Some(FootnoteElementStyle::Label)
    } else if s == "fw"@ {
        Some(FootnoteElementStyle::Witness)
    } else if s == "fp"@ {
        Some(FootnoteElementStyle::Paragraph)
    } else if s == "ft"@ {
        Some(FootnoteElementStyle::Text)
    } else if s == "fdc"@ {
        Some(FootnoteElementStyle::DeuteroText)
    } else if s == "fm"@ {
        Some(FootnoteElementStyle::ReferenceMark)
    } else {
        None
    }
}

/// Looks a tag up in the footnote element style table.
pub fn try_footnote_element_style(s: &str) -> (r: Option<FootnoteElementStyle>)
    ensures
        r == footnote_element_style_of(s@),
{
    proof {
        reveal(footnote_element_style_of);
    }
    if str_eq(s, "fq") {
        Some(FootnoteElementStyle::TranslationQuote)
    } else if str_eq(s, "fqa") {
        Some(FootnoteElementStyle::AltTranslationQuote)
    } else if str_eq(s, "fk") {
        Some(FootnoteElementStyle::Keyword)
    } else if str_eq(s, "fl") {
        Some(FootnoteElementStyle::Label)
    } else if str_eq(s, "fw") {
        Some(FootnoteElementStyle::Witness)
    } else if str_eq(s, "fp") {
        Some(FootnoteElementStyle::Paragraph)
    } else if str_eq(s, "ft") {
        Some(FootnoteElementStyle::Text)
    } else if str_eq(s, "fdc") {
        Some(FootnoteElementStyle::DeuteroText)
    } else if str_eq(s, "fm") {
        Some(FootnoteElementStyle::ReferenceMark)
    } else {
        None
    }
}

/// Maps a known tag to its footnote element style.
pub fn to_footnote_element_style(s: &str) -> (r: FootnoteElementStyle)
    requires
        footnote_element_style_of(s@) is Some,
    ensures
        footnote_element_style_of(s@) == Some(r),
{
    try_footnote_element_style(s).unwrap()
}

/// The cross-reference element style a tag text denotes, if any.
#[verifier::opaque]
pub open spec fn cross_ref_element_style_of(s: Seq<char>) -> Option<CrossRefElementStyle> {
    if s == "xk"@ {
        Some(CrossRefElementStyle::Keyword)
    } else if s == "xq"@ {
        Some(CrossRefElementStyle::Quote)
    } else if s == "xt"@ {
        Some(CrossRefElementStyle::Target)
    } else if s == "xta"@ {
        Some(CrossRefElementStyle::ExtraTarget)
    } else if s == "xop"@ {
        Some(CrossRefElementStyle::Origin)
    } else if s == "xot"@ {
        Some(CrossRefElementStyle::OldTarget)
    } else if s == "xnt"@ {
        Some(CrossRefElementStyle::NewTarget)
    } else if s == "xdc"@ {
        Some(CrossRefElementStyle::DeuteroTarget)
    } else if s == "rq"@ {
        Some(CrossRefElementStyle::InlineQuote)
    } else {
        None
    }
}

/// Looks a tag up in the cross-reference element style table.
pub fn try_cross_ref_element_style(s: &str) -> (r: Option<CrossRefElementStyle>)
    ensures
        r == cross_ref_element_style_of(s@),
{
    proof {
        reveal(cross_ref_element_style_of);
    }
    if str_eq(s, "xk") {
        Some(CrossRefElementStyle::Keyword)
    } else if str_eq(s, "xq") {
        Some(CrossRefElementStyle::Quote)
    } else if str_eq(s, "xt") {
        Some(CrossRefElementStyle::Target)
    } else if str_eq(s, "xta") {
        Some(CrossRefElementStyle::ExtraTarget)
    } else if str_eq(s, "xop") {
        Some(CrossRefElementStyle::Origin)
    } else if str_eq(s, "xot") {
        Some(CrossRefElementStyle::OldTarget)
    } else if str_eq(s, "xnt") {
        Some(CrossRefElementStyle::NewTarget)
    } else if str_eq(s, "xdc") {
        Some(CrossRefElementStyle::DeuteroTarget)
    } else if str_eq(s, "rq") {
        Some(CrossRefElementStyle::InlineQuote)
    } else {
        None
    }
}

/// Maps a known tag to its cross-reference element style.
pub fn to_cross_ref_element_style(s: &str) -> (r: CrossRefElementStyle)
    requires
        cross_ref_element_style_of(s@) is Some,
    ensures
        cross_ref_element_style_of(s@) == Some(r),
{
    try_cross_ref_element_style(s).unwrap()
}

/// The book identifier a tag text denotes, if any.
#[verifier::opaque]
pub open spec fn book_identifier_of(s: Seq<char>) -> Option<BookIdentifier> {
    if s == "GEN"@ {
        Some(BookIdentifier::Genesis)
    } else if s == "EXO"@ {
        Some(BookIdentifier::Exodus)
    } else if s == "LEV"@ {
        Some(BookIdentifier::Leviticus)
    } else if s == "NUM"@ {
        Some(BookIdentifier::Numbers)
    } else if s == "DEU"@ {
        Some(BookIdentifier::Deuteronomy)
    } else if s == "JOS"@ {
        Some(BookIdentifier::Joshua)
    } else if s == "JDG"@ {
        Some(BookIdentifier::Judges)
    } else if s == "RUT"@ {
        Some(BookIdentifier::Ruth)
    } else if s == "1SA"@ {
        Some(BookIdentifier::OneSamuel)
    } else if s == "2SA"@ {
        Some(BookIdentifier::TwoSamuel)
    } else if s == "1KI"@ {
        Some(BookIdentifier::OneKings)
    } else if s == "2KI"@ {
        Some(BookIdentifier::TwoKings)
    } else if s == "1CH"@ {
        Some(BookIdentifier::OneChronicles)
    } else if s == "2CH"@ {
        Some(BookIdentifier::TwoChronicles)
    } else if s == "EZR"@ {
        Some(BookIdentifier::Ezra)
    } else if s == "NEH"@ {
        Some(BookIdentifier::Nehemiah)
    } else if s == "EST"@ {
        Some(BookIdentifier::Esther)
    } else if s == "JOB"@ {
        Some(BookIdentifier::Job)
    } else if s == "PSA"@ {
        Some(BookIdentifier::Psalms)
    } else if s == "PRO"@ {
        Some(BookIdentifier::Proverbs)
    } else if s == "ECC"@ {
        Some(BookIdentifier::Ecclesiastes)
    } else if s == "SNG"@ {
        Some(BookIdentifier::SongOfSongs)
    } else if s == "ISA"@ {
        Some(BookIdentifier::Isaiah)
    } else if s == "JER"@ {
        Some(BookIdentifier::Jeremiah)
    } else if s == "LAM"@ {
        Some(BookIdentifier::Lamentations)
    } else if s == "EZK"@ {
        Some(BookIdentifier::Ezekiel)
    } else if s == "DAN"@ {
        Some(BookIdentifier::Daniel)
    } else if s == "HOS"@ {
        Some(BookIdentifier::Hosea)
    } else if s == "JOL"@ {
        Some(BookIdentifier::Joel)
    } else if s == "AMO"@ {
        Some(BookIdentifier::Amos)
    } else if s == "OBA"@ {
        Some(BookIdentifier::Obadiah)
    } else if s == "JON"@ {
        Some(BookIdentifier::Jonah)
    } else if s == "MIC"@ {
        Some(BookIdentifier::Micah)
    } else if s == "NAM"@ {
        Some(BookIdentifier::Nahum)
    } else if s == "HAB"@ {
        Some(BookIdentifier::Habakkuk)
    } else if s == "ZEP"@ {
        Some(BookIdentifier::Zephaniah)
    } else if s == "HAG"@ {
        Some(BookIdentifier::Haggai)
    } else if s == "ZEC"@ {
        Some(BookIdentifier::Zechariah)
    } else if s == "MAL"@ {
        Some(BookIdentifier::Malachi)
    } else if s == "MAT"@ {
        Some(BookIdentifier::Matthew)
    } else if s == "MRK"@ {
        Some(BookIdentifier::Mark)
    } else if s == "LUK"@ {
        Some(BookIdentifier::Luke)
    } else if s == "JHN"@ {
        Some(BookIdentifier::John)
    } else if s == "ACT"@ {
        Some(BookIdentifier::Acts)
    } else if s == "ROM"@ {
        Some(BookIdentifier::Romans)
    } else if s == "1CO"@ {
        Some(BookIdentifier::OneCorinthians)
    } else if s == "2CO"@ {
        Some(BookIdentifier::TwoCorinthians)
    } else if s == "GAL"@ {
        Some(BookIdentifier::Galatians)
    } else if s == "EPH"@ {
        Some(BookIdentifier::Ephesians)
    } else if s == "PHP"@ {
        Some(BookIdentifier::Philippians)
    } else if s == "COL"@ {
        Some(BookIdentifier::Colossians)
    } else if s == "1TH"@ {
        Some(BookIdentifier::OneThessalonians)
    } else if s == "2TH"@ {
        Some(BookIdentifier::TwoThessalonians)
    } else if s == "1TI"@ {
        Some(BookIdentifier::OneTimothy)
    } else if s == "2TI"@ {
        Some(BookIdentifier::TwoTimothy)
    } else if s == "TIT"@ {
        Some(BookIdentifier::Titus)
    } else if s == "PHM"@ {
        Some(BookIdentifier::Philemon)
    } else if s == "HEB"@ {
        Some(BookIdentifier::Hebrews)
    } else if s == "JAS"@ {
        Some(BookIdentifier::James)
    } else if s == "1PE"@ {
        Some(BookIdentifier::OnePeter)
    } else if s == "2PE"@ {
        Some(BookIdentifier::TwoPeter)
    } else if s == "1JN"@ {
        Some(BookIdentifier::OneJohn)
    } else if s == "2JN"@ {
        Some(BookIdentifier::TwoJohn)
    } else if s == "3JN"@ {
        Some(BookIdentifier::ThreeJohn)
    } else if s == "JUD"@ {
        Some(BookIdentifier::Jude)
    } else if s == "REV"@ {
        Some(BookIdentifier::Revelation)
    } else if s == "TOB"@ {
        Some(BookIdentifier::Tobit)
    } else if s == "JDT"@ {
        Some(BookIdentifier::Judith)
    } else if s == "ESG"@ {
        Some(BookIdentifier::EstherGreek)
    } else if s == "WIS"@ {
        Some(BookIdentifier::WisdomOfSolomon)
    } else if s == "SIR"@ {
        Some(BookIdentifier::Sirach)
    } else if s == "BAR"@ {
        Some(BookIdentifier::Baruch)
    } else if s == "LJE"@ {
        Some(BookIdentifier::LetterOfJeremiah)
    } else if s == "S3Y"@ {
        Some(BookIdentifier::SongOfThreeYoungMen)
    } else if s == "SUS"@ {
        Some(BookIdentifier::Susanna)
    } else if s == "BEL"@ {
        Some(BookIdentifier::BelAndTheDragon)
    } else if s == "1MA"@ {
        Some(BookIdentifier::OneMaccabees)
    } else if s == "2MA"@ {
        Some(BookIdentifier::TwoMaccabees)
    } else if s == "3MA"@ {
        Some(BookIdentifier::ThreeMaccabees)
    } else if s == "4MA"@ {
        Some(BookIdentifier::FourMaccabees)
    } else if s == "1ES"@ {
        Some(BookIdentifier::OneEsdras)
    } else if s == "2ES"@ {
        Some(BookIdentifier::TwoEsdras)
    } else if s == "MAN"@ {
        Some(BookIdentifier::PrayerOfManasseh)
    } else if s == "PS2"@ {
        Some(BookIdentifier::Psalm151)
    } else if s == "ODA"@ {
        Some(BookIdentifier::Odes)
    } else if s == "PSS"@ {
        Some(BookIdentifier::PsalmsOfSolomon)
    } else if s == "EZA"@ {
        Some(BookIdentifier::EzraApocalypse)
    } else if s == "5EZ"@ {
        Some(BookIdentifier::FiveEzra)
    } else if s == "6EZ"@ {
        Some(BookIdentifier::SixEzra)
    } else if s == "DAG"@ {
        Some(BookIdentifier::DanielGreek)
    } else if s == "PS3"@ {
        Some(BookIdentifier::Psalms152To155)
    } else if s == "2BA"@ {
        Some(BookIdentifier::TwoBaruch)
    } else if s == "LBA"@ {
        Some(BookIdentifier::LetterOfBaruch)
    } else if s == "JUB"@ {
        Some(BookIdentifier::Jubilees)
    } else if s == "ENO"@ {
        Some(BookIdentifier::Enoch)
    } else if s == "1MQ"@ {
        Some(BookIdentifier::OneMeqabyan)
    } else if s == "2MQ"@ {
        Some(BookIdentifier::TwoMeqabyan)
    } else if s == "3MQ"@ {
        Some(BookIdentifier::ThreeMeqabyan)
    } else if s == "REP"@ {
        Some(BookIdentifier::Reproof)
    } else if s == "4BA"@ {
        Some(BookIdentifier::FourBaruch)
    } else if s == "LAO"@ {
        Some(BookIdentifier::LetterToLaodiceans)
    } else if s == "FRT"@ {
        Some(BookIdentifier::FrontMatter)
    } else if s == "BAK"@ {
        Some(BookIdentifier::BackMatter)
    } else if s == "OTH"@ {
        Some(BookIdentifier::OtherMatter)
    } else if s == "INT"@ {
        Some(BookIdentifier::IntroductionMatter)
    } else if s == "CNC"@ {
        Some(BookIdentifier::Concordance)
    } else if s == "GLO"@ {
        Some(BookIdentifier::Glossary)
    } else if s == "TDX"@ {
        Some(BookIdentifier::TopicalIndex)
    } else if s == "NDX"@ {
        Some(BookIdentifier::NamesIndex)
    } else if s == "XXA"@ {
        Some(BookIdentifier::ExtraA)
    } else if s == "XXB"@ {
        Some(BookIdentifier::ExtraB)
    } else if s == "XXC"@ {
        Some(BookIdentifier::ExtraC)
    } else if s == "XXD"@ {
        Some(BookIdentifier::ExtraD)
    } else if s == "XXE"@ {
        Some(BookIdentifier::ExtraE)
    } else if s == "XXF"@ {
        Some(BookIdentifier::ExtraF)
    } else if s == "XXG"@ {
        Some(BookIdentifier::ExtraG)
    } else {
        None
    }
}

/// Looks a tag up in the book identifier table.
pub fn try_book_identifier(s: &str) -> (r: Option<BookIdentifier>)
    ensures
        r == book_identifier_of(s@),
{
    proof {
        reveal(book_identifier_of);
    }
    if str_eq(s, "GEN") {
        Some(BookIdentifier::Genesis)
    } else if str_eq(s, "EXO") {
        Some(BookIdentifier::Exodus)
    } else if str_eq(s, "LEV") {
        Some(BookIdentifier::Leviticus)
    } else if str_eq(s, "NUM") {
        Some(BookIdentifier::Numbers)
    } else if str_eq(s, "DEU") {
        Some(BookIdentifier::Deuteronomy)
    } else if str_eq(s, "JOS") {
        Some(BookIdentifier::Joshua)
    } else if str_eq(s, "JDG") {
        Some(BookIdentifier::Judges)
    } else if str_eq(s, "RUT") {
        Some(BookIdentifier::Ruth)
    } else if str_eq(s, "1SA") {
        Some(BookIdentifier::OneSamuel)
    } else if str_eq(s, "2SA") {
        Some(BookIdentifier::TwoSamuel)
    } else if str_eq(s, "1KI") {
        Some(BookIdentifier::OneKings)
    } else if str_eq(s, "2KI") {
        Some(BookIdentifier::TwoKings)
    } else if str_eq(s, "1CH") {
        Some(BookIdentifier::OneChronicles)
    } else if str_eq(s, "2CH") {
        Some(BookIdentifier::TwoChronicles)
    } else if str_eq(s, "EZR") {
        Some(BookIdentifier::Ezra)
    } else if str_eq(s, "NEH") {
        Some(BookIdentifier::Nehemiah)
    } else if str_eq(s, "EST") {
        Some(BookIdentifier::Esther)
    } else if str_eq(s, "JOB") {
        Some(BookIdentifier::Job)
    } else if str_eq(s, "PSA") {
        Some(BookIdentifier::Psalms)
    } else if str_eq(s, "PRO") {
        Some(BookIdentifier::Proverbs)
    } else if str_eq(s, "ECC") {
        Some(BookIdentifier::Ecclesiastes)
    } else if str_eq(s, "SNG") {
        Some(BookIdentifier::SongOfSongs)
    } else if str_eq(s, "ISA") {
        Some(BookIdentifier::Isaiah)
    } else if str_eq(s, "JER") {
        Some(BookIdentifier::Jeremiah)
    } else if str_eq(s, "LAM") {
        Some(BookIdentifier::Lamentations)
    } else if str_eq(s, "EZK") {
        Some(BookIdentifier::Ezekiel)
    } else if str_eq(s, "DAN") {
        Some(BookIdentifier::Daniel)
    } else if str_eq(s, "HOS") {
        Some(BookIdentifier::Hosea)
    } else if str_eq(s, "JOL") {
        Some(BookIdentifier::Joel)
    } else if str_eq(s, "AMO") {
        Some(BookIdentifier::Amos)
    } else if str_eq(s, "OBA") {
        Some(BookIdentifier::Obadiah)
    } else if str_eq(s, "JON") {
        Some(BookIdentifier::Jonah)
    } else if str_eq(s, "MIC") {
        Some(BookIdentifier::Micah)
    } else if str_eq(s, "NAM") {
        Some(BookIdentifier::Nahum)
    } else if str_eq(s, "HAB") {
        Some(BookIdentifier::Habakkuk)
    } else if str_eq(s, "ZEP") {
        Some(BookIdentifier::Zephaniah)
    } else if str_eq(s, "HAG") {
        Some(BookIdentifier::Haggai)
    } else if str_eq(s, "ZEC") {
        Some(BookIdentifier::Zechariah)
    } else if str_eq(s, "MAL") {
        Some(BookIdentifier::Malachi)
    } else if str_eq(s, "MAT") {
        Some(BookIdentifier::Matthew)
    } else if str_eq(s, "MRK") {
        Some(BookIdentifier::Mark)
    } else if str_eq(s, "LUK") {
        Some(BookIdentifier::Luke)
    } else if str_eq(s, "JHN") {
        Some(BookIdentifier::John)
    } else if str_eq(s, "ACT") {
        Some(BookIdentifier::Acts)
    } else if str_eq(s, "ROM") {
        Some(BookIdentifier::Romans)
    } else if str_eq(s, "1CO") {
        Some(BookIdentifier::OneCorinthians)
    } else if str_eq(s, "2CO") {
        Some(BookIdentifier::TwoCorinthians)
    } else if str_eq(s, "GAL") {
        Some(BookIdentifier::Galatians)
    } else if str_eq(s, "EPH") {
        Some(BookIdentifier::Ephesians)
    } else if str_eq(s, "PHP") {
        Some(BookIdentifier::Philippians)
    } else if str_eq(s, "COL") {
        Some(BookIdentifier::Colossians)
    } else if str_eq(s, "1TH") {
        Some(BookIdentifier::OneThessalonians)
    } else if str_eq(s, "2TH") {
        Some(BookIdentifier::TwoThessalonians)
    } else if str_eq(s, "1TI") {
        Some(BookIdentifier::OneTimothy)
    } else if str_eq(s, "2TI") {
        Some(BookIdentifier::TwoTimothy)
    } else if str_eq(s, "TIT") {
        Some(BookIdentifier::Titus)
    } else if str_eq(s, "PHM") {
        Some(BookIdentifier::Philemon)
    } else if str_eq(s, "HEB") {
        Some(BookIdentifier::Hebrews)
    } else if str_eq(s, "JAS") {
        Some(BookIdentifier::James)
    } else if str_eq(s, "1PE") {
        Some(BookIdentifier::OnePeter)
    } else if str_eq(s, "2PE") {
        Some(BookIdentifier::TwoPeter)
    } else if str_eq(s, "1JN") {
        Some(BookIdentifier::OneJohn)
    } else if str_eq(s, "2JN") {
        Some(BookIdentifier::TwoJohn)
    } else if str_eq(s, "3JN") {
        Some(BookIdentifier::ThreeJohn)
    } else if str_eq(s, "JUD") {
        Some(BookIdentifier::Jude)
    } else if str_eq(s, "REV") {
        Some(BookIdentifier::Revelation)
    } else if str_eq(s, "TOB") {
        Some(BookIdentifier::Tobit)
    } else if str_eq(s, "JDT") {
        Some(BookIdentifier::Judith)
    } else if str_eq(s, "ESG") {
        Some(BookIdentifier::EstherGreek)
    } else if str_eq(s, "WIS") {
        Some(BookIdentifier::WisdomOfSolomon)
    } else if str_eq(s, "SIR") {
        Some(BookIdentifier::Sirach)
    } else if str_eq(s, "BAR") {
        Some(BookIdentifier::Baruch)
    } else if str_eq(s, "LJE") {
        Some(BookIdentifier::LetterOfJeremiah)
    } else if str_eq(s, "S3Y") {
        Some(BookIdentifier::SongOfThreeYoungMen)
    } else if str_eq(s, "SUS") {
        Some(BookIdentifier::Susanna)
    } else if str_eq(s, "BEL") {
        Some(BookIdentifier::BelAndTheDragon)
    } else if str_eq(s, "1MA") {
        Some(BookIdentifier::OneMaccabees)
    } else if str_eq(s, "2MA") {
        Some(BookIdentifier::TwoMaccabees)
    } else if str_eq(s, "3MA") {
        Some(BookIdentifier::ThreeMaccabees)
    } else if str_eq(s, "4MA") {
        Some(BookIdentifier::FourMaccabees)
    } else if str_eq(s, "1ES") {
        Some(BookIdentifier::OneEsdras)
    } else if str_eq(s, "2ES") {
        Some(BookIdentifier::TwoEsdras)
    } else if str_eq(s, "MAN") {
        Some(BookIdentifier::PrayerOfManasseh)
    } else if str_eq(s, "PS2") {
        Some(BookIdentifier::Psalm151)
    } else if str_eq(s, "ODA") {
        Some(BookIdentifier::Odes)
    } else if str_eq(s, "PSS") {
        Some(BookIdentifier::PsalmsOfSolomon)
    } else if str_eq(s, "EZA") {
        Some(BookIdentifier::EzraApocalypse)
    } else if str_eq(s, "5EZ") {
        Some(BookIdentifier::FiveEzra)
    } else if str_eq(s, "6EZ") {
        Some(BookIdentifier::SixEzra)
    } else if str_eq(s, "DAG") {
        Some(BookIdentifier::DanielGreek)
    } else if str_eq(s, "PS3") {
        Some(BookIdentifier::Psalms152To155)
    } else if str_eq(s, "2BA") {
        Some(BookIdentifier::TwoBaruch)
    } else if str_eq(s, "LBA") {
        Some(BookIdentifier::LetterOfBaruch)
    } else if str_eq(s, "JUB") {
        Some(BookIdentifier::Jubilees)
    } else if str_eq(s, "ENO") {
        Some(BookIdentifier::Enoch)
    } else if str_eq(s, "1MQ") {
        Some(BookIdentifier::OneMeqabyan)
    } else if str_eq(s, "2MQ") {
        Some(BookIdentifier::TwoMeqabyan)
    } else if str_eq(s, "3MQ") {
        Some(BookIdentifier::ThreeMeqabyan)
    } else if str_eq(s, "REP") {
        Some(BookIdentifier::Reproof)
    } else if str_eq(s, "4BA") {
        Some(BookIdentifier::FourBaruch)
    } else if str_eq(s, "LAO") {
        Some(BookIdentifier::LetterToLaodiceans)
    } else if str_eq(s, "FRT") {
        Some(BookIdentifier::FrontMatter)
    } else if str_eq(s, "BAK") {
        Some(BookIdentifier::BackMatter)
    } else if str_eq(s, "OTH") {
        Some(BookIdentifier::OtherMatter)
    } else if str_eq(s, "INT") {
        Some(BookIdentifier::IntroductionMatter)
    } else if str_eq(s, "CNC") {
        Some(BookIdentifier::Concordance)
    } else if str_eq(s, "GLO") {
        Some(BookIdentifier::Glossary)
    } else if str_eq(s, "TDX") {
        Some(BookIdentifier::TopicalIndex)
    } else if str_eq(s, "NDX") {
        Some(BookIdentifier::NamesIndex)
    } else if str_eq(s, "XXA") {
        Some(BookIdentifier::ExtraA)
    } else if str_eq(s, "XXB") {
        Some(BookIdentifier::ExtraB)
    } else if str_eq(s, "XXC") {
        Some(BookIdentifier::ExtraC)
    } else if str_eq(s, "XXD") {
        Some(BookIdentifier::ExtraD)
    } else if str_eq(s, "XXE") {
        Some(BookIdentifier::ExtraE)
    } else if str_eq(s, "XXF") {
        Some(BookIdentifier::ExtraF)
    } else if str_eq(s, "XXG") {
        Some(BookIdentifier::ExtraG)
    } else {
        None
    }
}

/// Maps a known tag to its book identifier.
pub fn to_book_identifier(s: &str) -> (r: BookIdentifier)
    requires
        book_identifier_of(s@) is Some,
    ensures
        book_identifier_of(s@) == Some(r),
{
    try_book_identifier(s).unwrap()
}

/// The encoding a tag text denotes, if any.
#[verifier::opaque]
pub open spec fn book_encoding_of(s: Seq<char>) -> Option<BookEncoding> {
    if s == "CP-1252"@ {
        Some(BookEncoding::CP1252)
    } else if s == "CP-1251"@ {
        Some(BookEncoding::CP1251)
    } else if s == "UTF-8"@ {
        Some(BookEncoding::UTF8)
    } else if s == "UTF-16"@ {
        Some(BookEncoding::UTF16)
    } else {
        None
    }
}

/// Looks a tag up in the encoding table.
pub fn try_book_encoding(s: &str) -> (r: Option<BookEncoding>)
    ensures
        r == book_encoding_of(s@),
{
    proof {
        reveal(book_encoding_of);
    }
    if str_eq(s, "CP-1252") {
        Some(BookEncoding::CP1252)
    } else if str_eq(s, "CP-1251") {
        Some(BookEncoding::CP1251)
    } else if str_eq(s, "UTF-8") {
        Some(BookEncoding::UTF8)
    } else if str_eq(s, "UTF-16") {
        Some(BookEncoding::UTF16)
    } else {
        None
    }
}

/// Maps a known tag to its encoding.
pub fn to_book_encoding(s: &str) -> (r: BookEncoding)
    requires
        book_encoding_of(s@) is Some,
    ensures
        book_encoding_of(s@) == Some(r),
{
    try_book_encoding(s).unwrap()
}


/// The footnote element table maps no tag to the `Reference` style.
pub proof fn lemma_footnote_element_style_no_reference(t: Seq<char>)
    ensures
        footnote_element_style_of(t) != Some(FootnoteElementStyle::Reference),
{
    reveal(footnote_element_style_of);
}

/// The cross-reference element table maps no tag to the `Reference` style.
pub proof fn lemma_cross_ref_element_style_no_reference(t: Seq<char>)
    ensures
        cross_ref_element_style_of(t) != Some(CrossRefElementStyle::Reference),
{
    reveal(cross_ref_element_style_of);
}

} // verus!
