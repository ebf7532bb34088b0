//! The typed document model: a finite-depth tree of owned values rooted at
//! [`Book`], with every marker family represented as a closed enumeration.

use vstd::prelude::*;

verus! {

/// A whole document: an ordered sequence of top-level entries.
#[derive(Debug, PartialEq, Eq, Hash)]
pub struct Book {
    pub contents: Vec<BookContents>,
}

/// One top-level entry of a [`Book`].
#[derive(Debug, PartialEq, Eq, Hash)]
pub enum BookContents {
    Id { code: BookIdentifier, text: String },
    Usfm(String),
    Encoding(BookEncoding),
    Status(u16),
    Chapter(u16),
    AltChapter(u16),
    Paragraph(Paragraph),
    Poetry(Poetry),
    Element(Element),
    Empty(EmptyType),
}

/// An item inside a paragraph or poetry container; the only position where
/// verse markers may occur.
#[derive(Debug, PartialEq, Eq, Hash)]
pub enum ParagraphContents {
    Verse(u16),
    Line(String),
    Character(Character),
    Footnote(Footnote),
    CrossRef(CrossRef),
}

/// An item inside an element container: like paragraph contents but with no
/// verse markers.
#[derive(Debug, PartialEq, Eq, Hash)]
pub enum ElementContents {
    Line(String),
    Character(Character),
    Footnote(Footnote),
    CrossRef(CrossRef),
}

/// An item inside a character span: text or a nested character span.
/// Notes cannot occur here, so a character span can never contain one.
#[derive(Debug, PartialEq, Eq, Hash)]
pub enum CharacterContents {
    Line(String),
    Character(Character),
}

/// An item of a footnote: a scripture reference or a styled note element.
#[derive(Debug, PartialEq, Eq, Hash)]
pub enum FootnoteElement {
    Reference(NoteReference),
    Element(NoteElement<FootnoteElementStyle>),
}

/// An item of a cross-reference: a scripture reference or a styled note
/// element.
#[derive(Debug, PartialEq, Eq, Hash)]
pub enum CrossRefElement {
    Reference(NoteReference),
    Element(NoteElement<CrossRefElementStyle>),
}

/// A paragraph container with its style and contents.
#[derive(Debug, PartialEq, Eq, Hash)]
pub struct Paragraph {
    pub style: ParagraphStyle,
    pub contents: Vec<ParagraphContents>,
}

/// A poetry container with its style and contents.
#[derive(Debug, PartialEq, Eq, Hash)]
pub struct Poetry {
    pub style: PoetryStyle,
    pub contents: Vec<ParagraphContents>,
}

/// An element container with its type and contents.
#[derive(Debug, PartialEq, Eq, Hash)]
pub struct Element {
    pub ty: ElementType,
    pub contents: Vec<ElementContents>,
}

/// An inline character span: its style, its contents, and the decoded
/// attribute pairs of its optional attribute block.
#[derive(Debug, PartialEq, Eq, Hash)]
pub struct Character {
    pub ty: CharacterType,
    pub contents: Vec<CharacterContents>,
    pub attributes: Vec<(String, String)>,
}

/// A footnote with its style, caller, and elements.
#[derive(Debug, PartialEq, Eq, Hash)]
pub struct Footnote {
    pub style: FootnoteStyle,
    pub caller: Caller,
    pub elements: Vec<FootnoteElement>,
}

/// A cross-reference with its style, caller, and elements.
#[derive(Debug, PartialEq, Eq, Hash)]
pub struct CrossRef {
    pub style: CrossRefStyle,
    pub caller: Caller,
    pub elements: Vec<CrossRefElement>,
}

/// A `chapter:verse` reference inside a note, with the literal single
/// separator character the source used.
#[derive(Debug, PartialEq, Eq, Clone, Copy, Hash)]
pub struct NoteReference {
    pub chapter: u16,
    pub separator: char,
    pub verse: u16,
}

/// A styled run of note content.
#[derive(Debug, PartialEq, Eq, Hash)]
pub struct NoteElement<NoteStyle> {
    pub style: NoteStyle,
    pub contents: Vec<CharacterContents>,
}

/// Styles of footnote elements.
#[derive(Debug, PartialEq, Eq, Clone, Copy, Hash)]
pub enum FootnoteElementStyle {
    Reference,
    TranslationQuote,
    AltTranslationQuote,
    Keyword,
    Label,
    Witness,
    Paragraph,
    Text,
    DeuteroText,
    ReferenceMark,
}

/// Styles of cross-reference elements.
#[derive(Debug, PartialEq, Eq, Clone, Copy, Hash)]
pub enum CrossRefElementStyle {
    Reference,
    Keyword,
    Quote,
    Target,
    ExtraTarget,
    Origin,
    OldTarget,
    NewTarget,
    DeuteroTarget,
    InlineQuote,
}

/// Styles of inline character spans.
#[derive(Debug, PartialEq, Eq, Clone, Copy, Hash)]
pub enum CharacterType {
    IntroOutline,
    IntroQuote,
    InlineQuote,
    PublishedVerse,
    Selah,
    AcrosticLetter,
    Addition,
    BookQuote,
    DeuteroAddition,
    Keyword,
    Deity,
    Ordinal,
    Proper,
    Geographic,
    ProperAddition,
    QuotedText,
    Signature,
    SecondaryText,
    Transliterated,
    Jesus,
    Emphasis,
    Bold,
    Italic,
    BoldItalic,
    Normal,
    SmallCap,
    Superscipt,
    Index,
    Ruby,
    Pronunciation,
    Word,
    GreekWord,
    HebrewWord,
    AramaicWord,
    Link,
}

/// Styles of footnote containers.
#[derive(Debug, PartialEq, Eq, Clone, Copy, Hash)]
pub enum FootnoteStyle {
    Footnote,
    Endnote,
}

/// Styles of cross-reference containers.
#[derive(Debug, PartialEq, Eq, Clone, Copy, Hash)]
pub enum CrossRefStyle {
    CrossRef,
}

/// Styles of paragraph containers; the indented families carry their level.
#[derive(Debug, PartialEq, Eq, Clone, Copy, Hash)]
pub enum ParagraphStyle {
    Normal,
    Margin,
    Opening,
    Right,
    Closure,
    EmbeddedOpening,
    Embedded,
    EmbeddedClosing,
    EmbeddedRefrain,
    Indented(u8),
    MarginIndented,
    Basic,
    Centered,
    HangingIndented(u8),
    LiturgicalNote,
}

/// Styles of poetry containers; the normal and embedded families carry their
/// level.
#[derive(Debug, PartialEq, Eq, Clone, Copy, Hash)]
pub enum PoetryStyle {
    Normal(u8),
    Right,
    Centered,
    AcrosticHeading,
    Embedded(u8),
    Descriptive,
}

/// Types of element containers; numbered families carry their level.
#[derive(Debug, PartialEq, Eq, Clone, Copy, Hash)]
pub enum ElementType {
    Remark,
    Header,
    Contents(u8),
    AltContents(u8),
    MajorIntro(u8),
    SectionIntro(u8),
    Intro,
    IndentedIntro,
    MarginIntro,
    MarginIndentedIntro,
    QuotedIntro,
    MarginQuotedIntro,
    RightIntro,
    PoetryIntro(u8),
    BlankIntro,
    ListIntro(u8),
    OutlineIntro,
    EntryIntro(u8),
    BridgeIntro,
    MajorTitleEndingIntro(u8),
    EndIntro,
    ChapterLabel,
    ChapterPublishedLabel,
    ChapterDescription,
    MajorTitle(u8),
    MajorTitleEnding(u8),
    MajorSection(u8),
    MajorReference,
    Section(u8),
    Reference,
    Parallel,
    Descriptive,
    Speaker,
    Division(u8),
}

/// Contentless top-level markers.
#[derive(Debug, PartialEq, Eq, Clone, Copy, Hash)]
pub enum EmptyType {
    Blank,
    PageBreak,
}

/// The note caller glyph the publisher chose: automatic numbering, a
/// suppressed glyph, or a literal character.
#[derive(Debug, PartialEq, Eq, Clone, Copy, Hash)]
pub enum Caller {
    Auto,
    Suppressed,
    Literal(char),
}

/// Canonical book codes.
#[derive(Debug, PartialEq, Eq, Clone, Copy, Hash)]
pub enum BookIdentifier {
    Genesis,
    Exodus,
    Leviticus,
    Numbers,
    Deuteronomy,
    Joshua,
    Judges,
    Ruth,
    OneSamuel,
    TwoSamuel,
    OneKings,
    TwoKings,
    OneChronicles,
    TwoChronicles,
    Ezra,
    Nehemiah,
    Esther,
    Job,
    Psalms,
    Proverbs,
    Ecclesiastes,
    SongOfSongs,
    Isaiah,
    Jeremiah,
    Lamentations,
    Ezekiel,
    Daniel,
    Hosea,
    Joel,
    Amos,
    Obadiah,
    Jonah,
    Micah,
    Nahum,
    Habakkuk,
    Zephaniah,
    Haggai,
    Zechariah,
    Malachi,
    Matthew,
    Mark,
    Luke,
    John,
    Acts,
    Romans,
    OneCorinthians,
    TwoCorinthians,
    Galatians,
    Ephesians,
    Philippians,
    Colossians,
    OneThessalonians,
    TwoThessalonians,
    OneTimothy,
    TwoTimothy,
    Titus,
    Philemon,
    Hebrews,
    James,
    OnePeter,
    TwoPeter,
    OneJohn,
    TwoJohn,
    ThreeJohn,
    Jude,
    Revelation,
    Tobit,
    Judith,
    EstherGreek,
    WisdomOfSolomon,
    Sirach,
    Baruch,
    LetterOfJeremiah,
    SongOfThreeYoungMen,
    Susanna,
    BelAndTheDragon,
    OneMaccabees,
    TwoMaccabees,
    ThreeMaccabees,
    FourMaccabees,
    OneEsdras,
    TwoEsdras,
    PrayerOfManasseh,
    Psalm151,
    Odes,
    PsalmsOfSolomon,
    EzraApocalypse,
    FiveEzra,
    SixEzra,
    DanielGreek,
    Psalms152To155,
    TwoBaruch,
    LetterOfBaruch,
    Jubilees,
    Enoch,
    OneMeqabyan,
    TwoMeqabyan,
    ThreeMeqabyan,
    Reproof,
    FourBaruch,
    LetterToLaodiceans,
    FrontMatter,
    BackMatter,
    OtherMatter,
    IntroductionMatter,
    Concordance,
    Glossary,
    TopicalIndex,
    NamesIndex,
    ExtraA,
    ExtraB,
    ExtraC,
    ExtraD,
    ExtraE,
    ExtraF,
    ExtraG,
}

/// Text encodings a document may declare.
#[derive(Debug, PartialEq, Eq, Clone, Copy, Hash)]
pub enum BookEncoding {
    CP1252,
    CP1251,
    UTF8,
    UTF16,
}


// The ghost mirror of the document model: one view type for each node type
// that owns text or a vector, with `Seq` in place of `Vec` and `Seq<char>` in
// place of `String`. Contracts speak of these views.

/// The view of a [`Book`].
#[verifier::ext_equal]
pub struct BookView {
    pub contents: Seq<BookContentsView>,
}

/// The view of a [`BookContents`].
#[verifier::ext_equal]
pub enum BookContentsView {
    Id { code: BookIdentifier, text: Seq<char> },
    Usfm(Seq<char>),
    Encoding(BookEncoding),
    Status(u16),
    Chapter(u16),
    AltChapter(u16),
    Paragraph(ParagraphView),
    Poetry(PoetryView),
    Element(ElementView),
    Empty(EmptyType),
}

/// The view of a [`ParagraphContents`].
#[verifier::ext_equal]
pub enum ParagraphContentsView {
    Verse(u16),
    Line(Seq<char>),
    Character(CharacterView),
    Footnote(FootnoteView),
    CrossRef(CrossRefView),
}

/// The view of an [`ElementContents`].
#[verifier::ext_equal]
pub enum ElementContentsView {
    Line(Seq<char>),
    Character(CharacterView),
    Footnote(FootnoteView),
    CrossRef(CrossRefView),
}

/// The view of a [`CharacterContents`].
#[verifier::ext_equal]
pub enum CharacterContentsView {
    Line(Seq<char>),
    Character(CharacterView),
}

/// The view of a [`FootnoteElement`].
#[verifier::ext_equal]
pub enum FootnoteElementView {
    Reference(NoteReference),
    Element(NoteElementView<FootnoteElementStyle>),
}

/// The view of a [`CrossRefElement`].
#[verifier::ext_equal]
pub enum CrossRefElementView {
    Reference(NoteReference),
    Element(NoteElementView<CrossRefElementStyle>),
}

/// The view of a [`Paragraph`].
#[verifier::ext_equal]
pub struct ParagraphView {
    pub style: ParagraphStyle,
    pub contents: Seq<ParagraphContentsView>,
}

/// The view of a [`Poetry`].
#[verifier::ext_equal]
pub struct PoetryView {
    pub style: PoetryStyle,
    pub contents: Seq<ParagraphContentsView>,
}

/// The view of an [`Element`].
#[verifier::ext_equal]
pub struct ElementView {
    pub ty: ElementType,
    pub contents: Seq<ElementContentsView>,
}

/// The view of a [`Character`].
#[verifier::ext_equal]
pub struct CharacterView {
    pub ty: CharacterType,
    pub contents: Seq<CharacterContentsView>,
    pub attributes: Seq<(Seq<char>, Seq<char>)>,
}

/// The view of a [`Footnote`].
#[verifier::ext_equal]
pub struct FootnoteView {
    pub style: FootnoteStyle,
    pub caller: Caller,
    pub elements: Seq<FootnoteElementView>,
}

/// The view of a [`CrossRef`].
#[verifier::ext_equal]
pub struct CrossRefView {
    pub style: CrossRefStyle,
    pub caller: Caller,
    pub elements: Seq<CrossRefElementView>,
}

/// The view of a [`NoteElement`].
#[verifier::ext_equal]
pub struct NoteElementView<NoteStyle> {
    pub style: NoteStyle,
    pub contents: Seq<CharacterContentsView>,
}


impl View for Book {
    type V = BookView;

    open spec fn view(&self) -> BookView {
        BookView { contents: self.contents.deep_view() }
    }
}

impl DeepView for Book {
    type V = BookView;

    open spec fn deep_view(&self) -> BookView {
        self.view()
    }
}


impl View for BookContents {
    type V = BookContentsView;

    open spec fn view(&self) -> BookContentsView {
        match self {
            BookContents::Id { code, text } => BookContentsView::Id { code: *code, text: text@ },
            BookContents::Usfm(s) => BookContentsView::Usfm(s@),
            BookContents::Encoding(e) => BookContentsView::Encoding(*e),
            BookContents::Status(n) => BookContentsView::Status(*n),
            BookContents::Chapter(n) => BookContentsView::Chapter(*n),
            BookContents::AltChapter(n) => BookContentsView::AltChapter(*n),
            BookContents::Paragraph(p) => BookContentsView::Paragraph(p@),
            BookContents::Poetry(p) => BookContentsView::Poetry(p@),
            BookContents::Element(e) => BookContentsView::Element(e@),
            BookContents::Empty(e) => BookContentsView::Empty(*e),
        }
    }
}

impl DeepView for BookContents {
    type V = BookContentsView;

    open spec fn deep_view(&self) -> BookContentsView {
        self.view()
    }
}


impl View for ParagraphContents {
    type V = ParagraphContentsView;

    open spec fn view(&self) -> ParagraphContentsView {
        match self {
            ParagraphContents::Verse(n) => ParagraphContentsView::Verse(*n),
            ParagraphContents::Line(s) => ParagraphContentsView::Line(s@),
            ParagraphContents::Character(c) => ParagraphContentsView::Character(c@),
            ParagraphContents::Footnote(f) => ParagraphContentsView::Footnote(f@),
            ParagraphContents::CrossRef(x) => ParagraphContentsView::CrossRef(x@),
        }
    }
}

impl DeepView for ParagraphContents {
    type V = ParagraphContentsView;

    open spec fn deep_view(&self) -> ParagraphContentsView {
        self.view()
    }
}


impl View for ElementContents {
    type V = ElementContentsView;

    open spec fn view(&self) -> ElementContentsView {
        match self {
            ElementContents::Line(s) => ElementContentsView::Line(s@),
            ElementContents::Character(c) => ElementContentsView::Character(c@),
            ElementContents::Footnote(f) => ElementContentsView::Footnote(f@),
            ElementContents::CrossRef(x) => ElementContentsView::CrossRef(x@),
        }
    }
}

impl DeepView for ElementContents {
    type V = ElementContentsView;

    open spec fn deep_view(&self) -> ElementContentsView {
        self.view()
    }
}


// The views of a character span and of its items are mutually recursive, so
// they are defined by these three spec functions, whose termination Verus
// checks; the trait implementations below delegate to them.

/// The view of a sequence of character-span items.
pub open spec fn character_contents_seq_view(s: Seq<CharacterContents>) -> Seq<
    CharacterContentsView,
>
    decreases s, 0nat,
{
    if s.len() == 0 {
        Seq::empty()
    } else {
        character_contents_seq_view(s.drop_last()).push(character_contents_view(s.last()))
    }
}

/// The view of one character-span item.
pub open spec fn character_contents_view(c: CharacterContents) -> CharacterContentsView
    decreases c, 1nat,
{
    match c {
        CharacterContents::Line(s) => CharacterContentsView::Line(s@),
        CharacterContents::Character(ch) => CharacterContentsView::Character(character_view(ch)),
    }
}

/// The view of a character span.
pub open spec fn character_view(c: Character) -> CharacterView
    decreases c, 0nat,
{
    CharacterView {
        ty: c.ty,
        contents: character_contents_seq_view(c.contents@),
        attributes: c.attributes.deep_view(),
    }
}

/// The view of a sequence of character-span items is pointwise the view of
/// its items.
pub proof fn lemma_character_contents_seq_view(s: Seq<CharacterContents>)
    ensures
        character_contents_seq_view(s).len() == s.len(),
        forall|i: int|
            0 <= i < s.len() ==> character_contents_seq_view(s)[i] == character_contents_view(
                s[i],
            ),
    decreases s,
{
    if s.len() > 0 {
        lemma_character_contents_seq_view(s.drop_last());
    }
}

impl View for CharacterContents {
    type V = CharacterContentsView;

    open spec fn view(&self) -> CharacterContentsView {
        character_contents_view(*self)
    }
}

impl DeepView for CharacterContents {
    type V = CharacterContentsView;

    open spec fn deep_view(&self) -> CharacterContentsView {
        self.view()
    }
}


impl View for FootnoteElement {
    type V = FootnoteElementView;

    open spec fn view(&self) -> FootnoteElementView {
        match self {
            FootnoteElement::Reference(r) => FootnoteElementView::Reference(*r),
            FootnoteElement::Element(e) => FootnoteElementView::Element(e@),
        }
    }
}

impl DeepView for FootnoteElement {
    type V = FootnoteElementView;

    open spec fn deep_view(&self) -> FootnoteElementView {
        self.view()
    }
}


impl View for CrossRefElement {
    type V = CrossRefElementView;

    open spec fn view(&self) -> CrossRefElementView {
        match self {
            CrossRefElement::Reference(r) => CrossRefElementView::Reference(*r),
            CrossRefElement::Element(e) => CrossRefElementView::Element(e@),
        }
    }
}

impl DeepView for CrossRefElement {
    type V = CrossRefElementView;

    open spec fn deep_view(&self) -> CrossRefElementView {
        self.view()
    }
}


impl View for Paragraph {
    type V = ParagraphView;

    open spec fn view(&self) -> ParagraphView {
        ParagraphView { style: self.style, contents: self.contents.deep_view() }
    }
}

impl DeepView for Paragraph {
    type V = ParagraphView;

    open spec fn deep_view(&self) -> ParagraphView {
        self.view()
    }
}


impl View for Poetry {
    type V = PoetryView;

    open spec fn view(&self) -> PoetryView {
        PoetryView { style: self.style, contents: self.contents.deep_view() }
    }
}

impl DeepView for Poetry {
    type V = PoetryView;

    open spec fn deep_view(&self) -> PoetryView {
        self.view()
    }
}


impl View for Element {
    type V = ElementView;

    open spec fn view(&self) -> ElementView {
        ElementView { ty: self.ty, contents: self.contents.deep_view() }
    }
}

impl DeepView for Element {
    type V = ElementView;

    open spec fn deep_view(&self) -> ElementView {
        self.view()
    }
}


impl View for Character {
    type V = CharacterView;

    open spec fn view(&self) -> CharacterView {
        character_view(*self)
    }
}

impl DeepView for Character {
    type V = CharacterView;

    open spec fn deep_view(&self) -> CharacterView {
        self.view()
    }
}


impl View for Footnote {
    type V = FootnoteView;

    open spec fn view(&self) -> FootnoteView {
        FootnoteView { style: self.style, caller: self.caller, elements: self.elements.deep_view() }
    }
}

impl DeepView for Footnote {
    type V = FootnoteView;

    open spec fn deep_view(&self) -> FootnoteView {
        self.view()
    }
}


impl View for CrossRef {
    type V = CrossRefView;

    open spec fn view(&self) -> CrossRefView {
        CrossRefView { style: self.style, caller: self.caller, elements: self.elements.deep_view() }
    }
}

impl DeepView for CrossRef {
    type V = CrossRefView;

    open spec fn deep_view(&self) -> CrossRefView {
        self.view()
    }
}


impl<NoteStyle: Copy> View for NoteElement<NoteStyle> {
    type V = NoteElementView<NoteStyle>;

    open spec fn view(&self) -> NoteElementView<NoteStyle> {
        NoteElementView { style: self.style, contents: character_contents_seq_view(self.contents@) }
    }
}

impl<NoteStyle: Copy> DeepView for NoteElement<NoteStyle> {
    type V = NoteElementView<NoteStyle>;

    open spec fn deep_view(&self) -> NoteElementView<NoteStyle> {
        self.view()
    }
}

// Notes never nest. A character span's items are lines and nested character
// spans only, and a note element's contents have the same type, so neither a
// footnote nor a cross-reference can stand anywhere within a character
// span's transitive contents or within another note. The proof is by
// induction over the span.

/// Whether no footnote or cross-reference occurs among these character-span
/// items, at any depth.
pub open spec fn char_items_note_free(s: Seq<CharacterContentsView>) -> bool
    decreases s, 0nat,
{
    if s.len() == 0 {
        true
    } else {
        char_items_note_free(s.drop_last()) && char_item_note_free(s.last())
    }
}

/// Whether no footnote or cross-reference occurs in this character-span
/// item, at any depth.
pub open spec fn char_item_note_free(c: CharacterContentsView) -> bool
    decreases c, 1nat,
{
    match c {
        CharacterContentsView::Line(_) => true,
        CharacterContentsView::Character(ch) => char_items_note_free(ch.contents),
    }
}

/// Notes never nest: no footnote or cross-reference occurs anywhere within
/// the transitive contents of a character span, nor within a note element,
/// whose contents are character-span items too.
pub proof fn lemma_notes_never_nest(s: Seq<CharacterContentsView>)
    ensures
        char_items_note_free(s),
    decreases s, 2nat,
{
    if s.len() > 0 {
        lemma_notes_never_nest(s.drop_last());
        lemma_note_free_item(s.last());
    }
}

/// One character-span item is free of notes at any depth.
pub proof fn lemma_note_free_item(c: CharacterContentsView)
    ensures
        char_item_note_free(c),
    decreases c, 3nat,
{
    match c {
        CharacterContentsView::Line(_) => {},
        CharacterContentsView::Character(ch) => {
            lemma_notes_never_nest(ch.contents);
        },
    }
}

// Text maximality, stated of a whole document: nowhere in a parsed tree do
// two text lines stand side by side, and no text line is empty. The
// predicates descend through every container, character span, and note.

/// Whether no two adjacent character-span items are text lines.
pub open spec fn char_line_separated(s: Seq<CharacterContentsView>) -> bool {
    forall|i: int|
        0 <= i && i + 1 < s.len() ==> !((#[trigger] s[i]) is Line && s[i + 1] is Line)
}

/// Whether no two adjacent paragraph items are text lines.
pub open spec fn para_line_separated(s: Seq<ParagraphContentsView>) -> bool {
    forall|i: int|
        0 <= i && i + 1 < s.len() ==> !((#[trigger] s[i]) is Line && s[i + 1] is Line)
}

/// Whether no two adjacent element items are text lines.
pub open spec fn elem_line_separated(s: Seq<ElementContentsView>) -> bool {
    forall|i: int|
        0 <= i && i + 1 < s.len() ==> !((#[trigger] s[i]) is Line && s[i + 1] is Line)
}

/// Whether every character-span item keeps lines maximal, at any depth.
pub open spec fn char_items_lines_ok(s: Seq<CharacterContentsView>) -> bool
    decreases s, 0nat,
{
    if s.len() == 0 {
        true
    } else {
        char_items_lines_ok(s.drop_last()) && char_item_lines_ok(s.last())
    }
}

/// Whether one character-span item keeps lines maximal, at any depth.
pub open spec fn char_item_lines_ok(c: CharacterContentsView) -> bool
    decreases c, 2nat,
{
    match c {
        CharacterContentsView::Line(t) => t.len() > 0,
        CharacterContentsView::Character(ch) => char_seq_lines_ok(ch.contents),
    }
}

/// Whether character-span contents keep lines maximal: items at any depth,
/// and no two adjacent lines here.
pub open spec fn char_seq_lines_ok(s: Seq<CharacterContentsView>) -> bool
    decreases s, 1nat,
{
    char_items_lines_ok(s) && char_line_separated(s)
}

/// Whether every footnote element keeps lines maximal, at any depth.
pub open spec fn fnote_items_lines_ok(s: Seq<FootnoteElementView>) -> bool
    decreases s, 0nat,
{
    if s.len() == 0 {
        true
    } else {
        fnote_items_lines_ok(s.drop_last()) && fnote_item_lines_ok(s.last())
    }
}

/// Whether one footnote element keeps lines maximal, at any depth.
pub open spec fn fnote_item_lines_ok(e: FootnoteElementView) -> bool
    decreases e, 2nat,
{
    match e {
        FootnoteElementView::Reference(_) => true,
        FootnoteElementView::Element(ne) => char_seq_lines_ok(ne.contents),
    }
}

/// Whether every cross-reference element keeps lines maximal, at any depth.
pub open spec fn xref_items_lines_ok(s: Seq<CrossRefElementView>) -> bool
    decreases s, 0nat,
{
    if s.len() == 0 {
        true
    } else {
        xref_items_lines_ok(s.drop_last()) && xref_item_lines_ok(s.last())
    }
}

/// Whether one cross-reference element keeps lines maximal, at any depth.
pub open spec fn xref_item_lines_ok(e: CrossRefElementView) -> bool
    decreases e, 2nat,
{
    match e {
        CrossRefElementView::Reference(_) => true,
        CrossRefElementView::Element(ne) => char_seq_lines_ok(ne.contents),
    }
}

/// Whether every paragraph or poetry item keeps lines maximal, at any depth.
pub open spec fn para_items_lines_ok(s: Seq<ParagraphContentsView>) -> bool
    decreases s, 0nat,
{
    if s.len() == 0 {
        true
    } else {
        para_items_lines_ok(s.drop_last()) && para_item_lines_ok(s.last())
    }
}

/// Whether one paragraph or poetry item keeps lines maximal, at any depth.
pub open spec fn para_item_lines_ok(c: ParagraphContentsView) -> bool
    decreases c, 2nat,
{
    match c {
        ParagraphContentsView::Verse(_) => true,
        ParagraphContentsView::Line(t) => t.len() > 0,
        ParagraphContentsView::Character(ch) => char_seq_lines_ok(ch.contents),
        ParagraphContentsView::Footnote(f) => fnote_items_lines_ok(f.elements),
        ParagraphContentsView::CrossRef(x) => xref_items_lines_ok(x.elements),
    }
}

/// Whether every element item keeps lines maximal, at any depth.
pub open spec fn elem_items_lines_ok(s: Seq<ElementContentsView>) -> bool
    decreases s, 0nat,
{
    if s.len() == 0 {
        true
    } else {
        elem_items_lines_ok(s.drop_last()) && elem_item_lines_ok(s.last())
    }
}

/// Whether one element item keeps lines maximal, at any depth.
pub open spec fn elem_item_lines_ok(c: ElementContentsView) -> bool
    decreases c, 2nat,
{
    match c {
        ElementContentsView::Line(t) => t.len() > 0,
        ElementContentsView::Character(ch) => char_seq_lines_ok(ch.contents),
        ElementContentsView::Footnote(f) => fnote_items_lines_ok(f.elements),
        ElementContentsView::CrossRef(x) => xref_items_lines_ok(x.elements),
    }
}

/// Whether every top-level entry keeps lines maximal, at any depth.
pub open spec fn book_items_lines_ok(s: Seq<BookContentsView>) -> bool
    decreases s, 0nat,
{
    if s.len() == 0 {
        true
    } else {
        book_items_lines_ok(s.drop_last()) && book_item_lines_ok(s.last())
    }
}

/// Whether one top-level entry keeps lines maximal, at any depth.
pub open spec fn book_item_lines_ok(b: BookContentsView) -> bool
    decreases b, 2nat,
{
    match b {
        BookContentsView::Paragraph(p) => para_items_lines_ok(p.contents) && para_line_separated(
            p.contents,
        ),
        BookContentsView::Poetry(p) => para_items_lines_ok(p.contents) && para_line_separated(
            p.contents,
        ),
        BookContentsView::Element(e) => elem_items_lines_ok(e.contents) && elem_line_separated(
            e.contents,
        ),
        _ => true,
    }
}

/// Text maximality of a whole document: in every contents sequence anywhere
/// in the tree, no text line is empty and no two text lines stand side by
/// side.
pub open spec fn book_lines_ok(b: BookView) -> bool {
    book_items_lines_ok(b.contents)
}

// Closed enumerations, the one part the types alone do not give: the note
// element tables map no tag to the `Reference` style variants, so a parsed
// tree never carries them. Every other variant of every marker enumeration
// is the image of some tag in its table.

/// Whether no footnote element carries the unmapped `Reference` style.
pub open spec fn fnote_styles_ok(s: Seq<FootnoteElementView>) -> bool {
    forall|k: int|
        0 <= k < s.len() ==> ((#[trigger] s[k]) matches FootnoteElementView::Element(ne)
            ==> ne.style != FootnoteElementStyle::Reference)
}

/// Whether no cross-reference element carries the unmapped `Reference`
/// style.
pub open spec fn xref_styles_ok(s: Seq<CrossRefElementView>) -> bool {
    forall|k: int|
        0 <= k < s.len() ==> ((#[trigger] s[k]) matches CrossRefElementView::Element(ne)
            ==> ne.style != CrossRefElementStyle::Reference)
}

/// Whether one paragraph or poetry item carries no unmapped note style.
/// Character spans need no clause: notes cannot stand inside them.
pub open spec fn para_item_styles_ok(c: ParagraphContentsView) -> bool {
    match c {
        ParagraphContentsView::Footnote(f) => fnote_styles_ok(f.elements),
        ParagraphContentsView::CrossRef(x) => xref_styles_ok(x.elements),
        _ => true,
    }
}

/// Whether one element item carries no unmapped note style.
pub open spec fn elem_item_styles_ok(c: ElementContentsView) -> bool {
    match c {
        ElementContentsView::Footnote(f) => fnote_styles_ok(f.elements),
        ElementContentsView::CrossRef(x) => xref_styles_ok(x.elements),
        _ => true,
    }
}

/// Whether one top-level entry carries no unmapped note style.
pub open spec fn book_item_styles_ok(b: BookContentsView) -> bool {
    match b {
        BookContentsView::Paragraph(p) => forall|k: int|
            0 <= k < p.contents.len() ==> para_item_styles_ok(#[trigger] p.contents[k]),
        BookContentsView::Poetry(p) => forall|k: int|
            0 <= k < p.contents.len() ==> para_item_styles_ok(#[trigger] p.contents[k]),
        BookContentsView::Element(e) => forall|k: int|
            0 <= k < e.contents.len() ==> elem_item_styles_ok(#[trigger] e.contents[k]),
        _ => true,
    }
}

/// Closed enumerations over a whole document: no note element anywhere
/// carries a style outside its tag table's image.
pub open spec fn book_styles_ok(b: BookView) -> bool {
    forall|k: int| 0 <= k < b.contents.len() ==> book_item_styles_ok(#[trigger] b.contents[k])
}

// Cloning is written out by hand so that every clone is proved to denote the
// same document as its original: each `clone` returns a value with an equal
// view, making a clone a no-op transformation of the tree.

fn clone_attribute_vec(v: &Vec<(String, String)>) -> (r: Vec<(String, String)>)
    ensures
        r.deep_view() == v.deep_view(),
{
    let mut r: Vec<(String, String)> = Vec::new();
    let mut i: usize = 0;
    while i < v.len()
        invariant
            i <= v.len(),
            r.deep_view() == v.deep_view().subrange(0, i as int),
        decreases v.len() - i,
    {
        let pair = &v[i];
        r.push((pair.0.clone(), pair.1.clone()));
        proof {
            assert(v.deep_view().subrange(0, i as int + 1) =~= v.deep_view().subrange(
                0,
                i as int,
            ).push(v@[i as int].deep_view()));
            assert(r.deep_view() =~= v.deep_view().subrange(0, i as int + 1));
        }
        i += 1;
    }
    proof {
        assert(v.deep_view().subrange(0, v@.len() as int) =~= v.deep_view());
    }
    r
}

fn clone_character_contents_vec(v: &Vec<CharacterContents>) -> (r: Vec<CharacterContents>)
    ensures
        r.deep_view() == v.deep_view(),
    decreases *v,
{
    let mut r: Vec<CharacterContents> = Vec::new();
    let mut i: usize = 0;
    while i < v.len()
        invariant
            i <= v.len(),
            r.deep_view() == v.deep_view().subrange(0, i as int),
        decreases v.len() - i,
    {
        r.push(v[i].clone());
        proof {
            assert(v.deep_view().subrange(0, i as int + 1) =~= v.deep_view().subrange(
                0,
                i as int,
            ).push(v@[i as int].deep_view()));
            assert(r.deep_view() =~= v.deep_view().subrange(0, i as int + 1));
        }
        i += 1;
    }
    proof {
        assert(v.deep_view().subrange(0, v@.len() as int) =~= v.deep_view());
    }
    r
}

impl Clone for CharacterContents {
    /// Returns a value with the same view as the original.
    fn clone(&self) -> (res: Self)
        ensures
            res@ == self@,
        decreases *self,
    {
        match self {
            CharacterContents::Line(s) => CharacterContents::Line(s.clone()),
            CharacterContents::Character(c) => CharacterContents::Character(c.clone()),
        }
    }
}

impl Clone for Character {
    /// Returns a value with the same view as the original.
    fn clone(&self) -> (res: Self)
        ensures
            res@ == self@,
        decreases *self,
    {
        let res = Character {
            ty: self.ty,
            contents: clone_character_contents_vec(&self.contents),
            attributes: clone_attribute_vec(&self.attributes),
        };
        proof {
            lemma_character_contents_seq_view(res.contents@);
            lemma_character_contents_seq_view(self.contents@);
            assert(res.contents.deep_view().len() == self.contents.deep_view().len());
            assert forall|i: int| 0 <= i < self.contents@.len() implies character_contents_seq_view(
                res.contents@,
            )[i] == character_contents_seq_view(self.contents@)[i] by {
                assert(res.contents.deep_view()[i] == self.contents.deep_view()[i]);
            }
            assert(character_contents_seq_view(res.contents@) =~= character_contents_seq_view(
                self.contents@,
            ));
        }
        res
    }
}

impl<NoteStyle: Copy> Clone for NoteElement<NoteStyle> {
    /// Returns a value with the same view as the original.
    fn clone(&self) -> (res: Self)
        ensures
            res@ == self@,
    {
        let res = NoteElement {
            style: self.style,
            contents: clone_character_contents_vec(&self.contents),
        };
        proof {
            lemma_character_contents_seq_view(res.contents@);
            lemma_character_contents_seq_view(self.contents@);
            assert(res.contents.deep_view().len() == self.contents.deep_view().len());
            assert forall|i: int| 0 <= i < self.contents@.len() implies character_contents_seq_view(
                res.contents@,
            )[i] == character_contents_seq_view(self.contents@)[i] by {
                assert(res.contents.deep_view()[i] == self.contents.deep_view()[i]);
            }
            assert(character_contents_seq_view(res.contents@) =~= character_contents_seq_view(
                self.contents@,
            ));
        }
        res
    }
}

impl Clone for FootnoteElement {
    /// Returns a value with the same view as the original.
    fn clone(&self) -> (res: Self)
        ensures
            res@ == self@,
    {
        match self {
            FootnoteElement::Reference(r) => FootnoteElement::Reference(*r),
            FootnoteElement::Element(e) => FootnoteElement::Element(e.clone()),
        }
    }
}

impl Clone for CrossRefElement {
    /// Returns a value with the same view as the original.
    fn clone(&self) -> (res: Self)
        ensures
            res@ == self@,
    {
        match self {
            CrossRefElement::Reference(r) => CrossRefElement::Reference(*r),
            CrossRefElement::Element(e) => CrossRefElement::Element(e.clone()),
        }
    }
}

fn clone_footnote_element_vec(v: &Vec<FootnoteElement>) -> (r: Vec<FootnoteElement>)
    ensures
        r.deep_view() == v.deep_view(),
{
    let mut r: Vec<FootnoteElement> = Vec::new();
    let mut i: usize = 0;
    while i < v.len()
        invariant
            i <= v.len(),
            r.deep_view() == v.deep_view().subrange(0, i as int),
        decreases v.len() - i,
    {
        r.push(v[i].clone());
        proof {
            assert(v.deep_view().subrange(0, i as int + 1) =~= v.deep_view().subrange(
                0,
                i as int,
            ).push(v@[i as int].deep_view()));
            assert(r.deep_view() =~= v.deep_view().subrange(0, i as int + 1));
        }
        i += 1;
    }
    proof {
        assert(v.deep_view().subrange(0, v@.len() as int) =~= v.deep_view());
    }
    r
}

fn clone_cross_ref_element_vec(v: &Vec<CrossRefElement>) -> (r: Vec<CrossRefElement>)
    ensures
        r.deep_view() == v.deep_view(),
{
    let mut r: Vec<CrossRefElement> = Vec::new();
    let mut i: usize = 0;
    while i < v.len()
        invariant
            i <= v.len(),
            r.deep_view() == v.deep_view().subrange(0, i as int),
        decreases v.len() - i,
    {
        r.push(v[i].clone());
        proof {
            assert(v.deep_view().subrange(0, i as int + 1) =~= v.deep_view().subrange(
                0,
                i as int,
            ).push(v@[i as int].deep_view()));
            assert(r.deep_view() =~= v.deep_view().subrange(0, i as int + 1));
        }
        i += 1;
    }
    proof {
        assert(v.deep_view().subrange(0, v@.len() as int) =~= v.deep_view());
    }
    r
}

impl Clone for Footnote {
    /// Returns a value with the same view as the original.
    fn clone(&self) -> (res: Self)
        ensures
            res@ == self@,
    {
        Footnote {
            style: self.style,
            caller: self.caller,
            elements: clone_footnote_element_vec(&self.elements),
        }
    }
}

impl Clone for CrossRef {
    /// Returns a value with the same view as the original.
    fn clone(&self) -> (res: Self)
        ensures
            res@ == self@,
    {
        CrossRef {
            style: self.style,
            caller: self.caller,
            elements: clone_cross_ref_element_vec(&self.elements),
        }
    }
}

impl Clone for ParagraphContents {
    /// Returns a value with the same view as the original.
    fn clone(&self) -> (res: Self)
        ensures
            res@ == self@,
    {
        match self {
            ParagraphContents::Verse(n) => ParagraphContents::Verse(*n),
            ParagraphContents::Line(s) => ParagraphContents::Line(s.clone()),
            ParagraphContents::Character(c) => ParagraphContents::Character(c.clone()),
            ParagraphContents::Footnote(f) => ParagraphContents::Footnote(f.clone()),
            ParagraphContents::CrossRef(x) => ParagraphContents::CrossRef(x.clone()),
        }
    }
}

impl Clone for ElementContents {
    /// Returns a value with the same view as the original.
    fn clone(&self) -> (res: Self)
        ensures
            res@ == self@,
    {
        match self {
            ElementContents::Line(s) => ElementContents::Line(s.clone()),
            ElementContents::Character(c) => ElementContents::Character(c.clone()),
            ElementContents::Footnote(f) => ElementContents::Footnote(f.clone()),
            ElementContents::CrossRef(x) => ElementContents::CrossRef(x.clone()),
        }
    }
}

fn clone_paragraph_contents_vec(v: &Vec<ParagraphContents>) -> (r: Vec<ParagraphContents>)
    ensures
        r.deep_view() == v.deep_view(),
{
    let mut r: Vec<ParagraphContents> = Vec::new();
    let mut i: usize = 0;
    while i < v.len()
        invariant
            i <= v.len(),
            r.deep_view() == v.deep_view().subrange(0, i as int),
        decreases v.len() - i,
    {
        r.push(v[i].clone());
        proof {
            assert(v.deep_view().subrange(0, i as int + 1) =~= v.deep_view().subrange(
                0,
                i as int,
            ).push(v@[i as int].deep_view()));
            assert(r.deep_view() =~= v.deep_view().subrange(0, i as int + 1));
        }
        i += 1;
    }
    proof {
        assert(v.deep_view().subrange(0, v@.len() as int) =~= v.deep_view());
    }
    r
}

fn clone_element_contents_vec(v: &Vec<ElementContents>) -> (r: Vec<ElementContents>)
    ensures
        r.deep_view() == v.deep_view(),
{
    let mut r: Vec<ElementContents> = Vec::new();
    let mut i: usize = 0;
    while i < v.len()
        invariant
            i <= v.len(),
            r.deep_view() == v.deep_view().subrange(0, i as int),
        decreases v.len() - i,
    {
        r.push(v[i].clone());
        proof {
            assert(v.deep_view().subrange(0, i as int + 1) =~= v.deep_view().subrange(
                0,
                i as int,
            ).push(v@[i as int].deep_view()));
            assert(r.deep_view() =~= v.deep_view().subrange(0, i as int + 1));
        }
        i += 1;
    }
    proof {
        assert(v.deep_view().subrange(0, v@.len() as int) =~= v.deep_view());
    }
    r
}

impl Clone for Paragraph {
    /// Returns a value with the same view as the original.
    fn clone(&self) -> (res: Self)
        ensures
            res@ == self@,
    {
        Paragraph { style: self.style, contents: clone_paragraph_contents_vec(&self.contents) }
    }
}

impl Clone for Poetry {
    /// Returns a value with the same view as the original.
    fn clone(&self) -> (res: Self)
        ensures
            res@ == self@,
    {
        Poetry { style: self.style, contents: clone_paragraph_contents_vec(&self.contents) }
    }
}

impl Clone for Element {
    /// Returns a value with the same view as the original.
    fn clone(&self) -> (res: Self)
        ensures
            res@ == self@,
    {
        Element { ty: self.ty, contents: clone_element_contents_vec(&self.contents) }
    }
}

impl Clone for BookContents {
    /// Returns a value with the same view as the original.
    fn clone(&self) -> (res: Self)
        ensures
            res@ == self@,
    {
        match self {
            BookContents::Id { code, text } => BookContents::Id {
                code: *code,
                text: text.clone(),
            },
            BookContents::Usfm(s) => BookContents::Usfm(s.clone()),
            BookContents::Encoding(e) => BookContents::Encoding(*e),
            BookContents::Status(n) => BookContents::Status(*n),
            BookContents::Chapter(n) => BookContents::Chapter(*n),
            BookContents::AltChapter(n) => BookContents::AltChapter(*n),
            BookContents::Paragraph(p) => BookContents::Paragraph(p.clone()),
            BookContents::Poetry(p) => BookContents::Poetry(p.clone()),
            BookContents::Element(e) => BookContents::Element(e.clone()),
            BookContents::Empty(e) => BookContents::Empty(*e),
        }
    }
}

fn clone_book_contents_vec(v: &Vec<BookContents>) -> (r: Vec<BookContents>)
    ensures
        r.deep_view() == v.deep_view(),
{
    let mut r: Vec<BookContents> = Vec::new();
    let mut i: usize = 0;
    while i < v.len()
        invariant
            i <= v.len(),
            r.deep_view() == v.deep_view().subrange(0, i as int),
        decreases v.len() - i,
    {
        r.push(v[i].clone());
        proof {
            assert(v.deep_view().subrange(0, i as int + 1) =~= v.deep_view().subrange(
                0,
                i as int,
            ).push(v@[i as int].deep_view()));
            assert(r.deep_view() =~= v.deep_view().subrange(0, i as int + 1));
        }
        i += 1;
    }
    proof {
        assert(v.deep_view().subrange(0, v@.len() as int) =~= v.deep_view());
    }
    r
}

impl Clone for Book {
    /// Returns a value with the same view as the original: cloning a parsed
    /// document changes nothing it denotes.
    fn clone(&self) -> (res: Self)
        ensures
            res@ == self@,
    {
        Book { contents: clone_book_contents_vec(&self.contents) }
    }
}

} // verus!
