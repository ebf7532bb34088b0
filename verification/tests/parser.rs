use usfm::{
    parse, to_book_identifier, to_caller, to_numbered_element_type, to_paragraph_style, Book,
    BookContents, BookIdentifier, Caller, Character, CharacterContents, CharacterType, ElementType,
    Footnote, FootnoteElement, FootnoteElementStyle, FootnoteStyle, NoteElement, NoteReference,
    ParagraphContents, ParagraphStyle, PoetryStyle,
};

fn assert_web_genesis(genesis: &Book) {
    assert_eq!(
        genesis.contents[1..3],
        vec![
            BookContents::Chapter(1),
            BookContents::Paragraph(usfm::Paragraph {
                style: ParagraphStyle::Normal,
                contents: vec![
                    ParagraphContents::Verse(1),
                    ParagraphContents::Line("In the beginning, God".into()),
                    ParagraphContents::Footnote(Footnote {
                        style: FootnoteStyle::Footnote,
                        caller: Caller::Auto,
                        elements: vec![
                            FootnoteElement::Reference(NoteReference {
                                chapter: 1,
                                separator: ':',
                                verse: 1
                            }),
                            FootnoteElement::Element(NoteElement {
                                style: FootnoteElementStyle::Text,
                                contents: vec![CharacterContents::Line(
                                    "The Hebrew word rendered “God” is “אֱלֹהִ֑ים”\n(Elohim).".into()
                                )]
                            })
                        ]
                    }),
                    ParagraphContents::Line(" created the heavens and the earth.".into()),
                    ParagraphContents::Verse(2),
                    ParagraphContents::Line("The earth was formless and empty.".into())
                ]
            })
        ]
    );
}

#[test]
fn web_genesis() {
    let input = "\\id GEN World English Bible\n\\c 1\n\\p\n\\v 1 In the beginning, God\\f + \\fr 1:1 \\ft The Hebrew word rendered “God” is “אֱלֹהִ֑ים”\n(Elohim).\\f* created the heavens and the earth.\n\\v 2 The earth was formless and empty.\n";
    let genesis = parse(input).unwrap();
    assert_web_genesis(&genesis);
}

#[test]
fn identification_entry() {
    let book = parse("\\id GEN English\n").unwrap();
    assert_eq!(
        book.contents,
        vec![BookContents::Id {
            code: BookIdentifier::Genesis,
            text: "English".into()
        }]
    );
}

#[test]
fn header_and_paragraph() {
    let book = parse("\\id GEN Test\n\\ide UTF-8\n\\c 1\n\\p \\v 1 Hello.\n").unwrap();
    assert_eq!(
        book.contents[1..],
        vec![
            BookContents::Encoding(usfm::BookEncoding::UTF8),
            BookContents::Chapter(1),
            BookContents::Paragraph(usfm::Paragraph {
                style: ParagraphStyle::Normal,
                contents: vec![
                    ParagraphContents::Verse(1),
                    ParagraphContents::Line("Hello.".into())
                ]
            })
        ]
    );
}

#[test]
fn status_and_alt_chapter() {
    let book = parse("\\id GEN T\n\\sts 2\n\\ca 3\n\\b\n").unwrap();
    assert_eq!(
        book.contents[1..],
        vec![
            BookContents::Status(2),
            BookContents::AltChapter(3),
            BookContents::Empty(usfm::EmptyType::Blank),
        ]
    );
}

#[test]
fn numbered_markers() {
    let book = parse("\\id GEN T\n\\mt1 Genesis\n\\q2 line\n").unwrap();
    assert_eq!(
        book.contents[1..],
        vec![
            BookContents::Element(usfm::Element {
                ty: ElementType::MajorTitle(1),
                contents: vec![usfm::ElementContents::Line("Genesis".into())]
            }),
            BookContents::Poetry(usfm::Poetry {
                style: PoetryStyle::Normal(2),
                contents: vec![ParagraphContents::Line("line".into())]
            })
        ]
    );
}

#[test]
fn nested_character() {
    let book = parse("\\id GEN T\n\\p \\w hello\\+nd LORD\\+nd*\\w*").unwrap();
    let expected = ParagraphContents::Character(Character {
        ty: CharacterType::Word,
        contents: vec![
            CharacterContents::Line("hello".into()),
            CharacterContents::Character(Character {
                ty: CharacterType::Deity,
                contents: vec![CharacterContents::Line("LORD".into())],
                attributes: vec![],
            }),
        ],
        attributes: vec![],
    });
    match &book.contents[1] {
        BookContents::Paragraph(p) => assert_eq!(p.contents, vec![expected]),
        other => panic!("expected a paragraph, got {:?}", other),
    }
}

#[test]
fn caller_classes() {
    let book = parse(
        "\\id GEN T\n\\p \\v 1 a\\f + \\ft x\\f* b\\f - \\ft y\\f* c\\f a \\ft z\\f*",
    )
    .unwrap();
    let callers: Vec<Caller> = match &book.contents[1] {
        BookContents::Paragraph(p) => p
            .contents
            .iter()
            .filter_map(|c| match c {
                ParagraphContents::Footnote(f) => Some(f.caller),
                _ => None,
            })
            .collect(),
        other => panic!("expected a paragraph, got {:?}", other),
    };
    assert_eq!(
        callers,
        vec![Caller::Auto, Caller::Suppressed, Caller::Literal('a')]
    );
}

#[test]
fn bare_attribute_value() {
    let book = parse("\\id GEN T\n\\p \\w gracious|grace\\w*").unwrap();
    match &book.contents[1] {
        BookContents::Paragraph(p) => match &p.contents[0] {
            ParagraphContents::Character(c) => {
                assert_eq!(c.attributes, vec![("lemma".to_string(), "grace".to_string())]);
            }
            other => panic!("expected a character span, got {:?}", other),
        },
        other => panic!("expected a paragraph, got {:?}", other),
    }
}

#[test]
fn named_attributes() {
    let book = parse("\\id GEN T\n\\p \\w x|strong=\"H1234\",srcloc=\"gnt\"\\w*").unwrap();
    match &book.contents[1] {
        BookContents::Paragraph(p) => match &p.contents[0] {
            ParagraphContents::Character(c) => {
                assert_eq!(
                    c.attributes,
                    vec![
                        ("strong".to_string(), "H1234".to_string()),
                        ("srcloc".to_string(), "gnt".to_string())
                    ]
                );
            }
            other => panic!("expected a character span, got {:?}", other),
        },
        other => panic!("expected a paragraph, got {:?}", other),
    }
}

#[test]
fn open_footnote_closes_at_next_marker() {
    let book = parse("\\id GEN T\n\\p \\v 1 a\\f + \\ft note\n\\p next").unwrap();
    assert_eq!(
        book.contents[1..],
        vec![
            BookContents::Paragraph(usfm::Paragraph {
                style: ParagraphStyle::Normal,
                contents: vec![
                    ParagraphContents::Verse(1),
                    ParagraphContents::Line("a".into()),
                    ParagraphContents::Footnote(Footnote {
                        style: FootnoteStyle::Footnote,
                        caller: Caller::Auto,
                        elements: vec![FootnoteElement::Element(NoteElement {
                            style: FootnoteElementStyle::Text,
                            contents: vec![CharacterContents::Line("note".into())]
                        })]
                    })
                ]
            }),
            BookContents::Paragraph(usfm::Paragraph {
                style: ParagraphStyle::Normal,
                contents: vec![ParagraphContents::Line("next".into())]
            })
        ]
    );
}

#[test]
fn lines_are_maximal() {
    let book = parse("\\id GEN T\n\\p one line\nstill the same line\n\\v 2 x").unwrap();
    match &book.contents[1] {
        BookContents::Paragraph(p) => {
            assert_eq!(
                p.contents,
                vec![
                    ParagraphContents::Line("one line\nstill the same line".into()),
                    ParagraphContents::Verse(2),
                    ParagraphContents::Line("x".into())
                ]
            );
        }
        other => panic!("expected a paragraph, got {:?}", other),
    }
}

#[test]
fn clone_is_identity() {
    let book = parse("\\id GEN T\n\\c 1\n\\p \\v 1 Hello\\f + \\fr 1:1 \\ft n\\f* world.").unwrap();
    assert_eq!(book.clone(), book);
}

#[test]
fn parse_rejects_malformed_input() {
    assert!(parse("").is_err());
    assert!(parse("no marker at all").is_err());
    assert!(parse("\\id XYZ unknown code\n").is_err());
    assert!(parse("\\id GEN T\n\\zz unknown marker\n").is_err());
    assert!(parse("\\id GEN T\n\\c 70000\n").is_err());
    assert!(parse("\\id GEN T\n\\p \\w unclosed span").is_err());
    assert!(parse("\\id GEN T\n\\rem no verses here \\v 1").is_err());
}

#[test]
fn tag_tables() {
    assert_eq!(to_book_identifier("GEN"), BookIdentifier::Genesis);
    assert_eq!(to_book_identifier("REV"), BookIdentifier::Revelation);
    assert_eq!(to_book_identifier("XXG"), BookIdentifier::ExtraG);
    assert_eq!(to_paragraph_style("pmr"), ParagraphStyle::EmbeddedRefrain);
    assert_eq!(to_numbered_element_type("toc", 3), ElementType::Contents(3));
    assert_eq!(to_caller('+'), Caller::Auto);
    assert_eq!(to_caller('-'), Caller::Suppressed);
    assert_eq!(to_caller('q'), Caller::Literal('q'));
}
