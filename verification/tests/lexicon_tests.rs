use cluaiz_engines::onnx::ipa_dictionary::{
    decode_lexicon, encode_lexicon, lexicon_candidates, lexicon_url, needs_compile, parse_lexicon_text, LexiconError,
};

#[test]
fn lexicon_text_lines() {
    let text = "# comment\nHello\thəˈloʊ\n\n  World  w ɜː l d  \r\nsolo\n";
    let e = parse_lexicon_text(text, true);
    assert_eq!(
        e,
        vec![("hello".to_string(), "həˈloʊ".to_string()), ("world".to_string(), "w ɜː l d".to_string())]
    );
    let f = parse_lexicon_text("A\tb c\n", false);
    assert_eq!(f, vec![("a".to_string(), "b c".to_string())]);
}

#[test]
fn lexicon_binary_round_trip() {
    let entries = vec![
        ("hello".to_string(), "həˈloʊ".to_string()),
        ("world".to_string(), "wɜːld".to_string()),
        ("hello".to_string(), "hɛloʊ".to_string()),
    ];
    let bin = encode_lexicon(&entries);
    assert_eq!(&bin[0..4], &[3, 0, 0, 0]);
    assert_eq!(&bin[4..8], &[5, 0, 0, 0]);
    let table = decode_lexicon(&bin).unwrap();
    assert_eq!(table.len(), 2);
    assert!(table.contains(&("hello".to_string(), "hɛloʊ".to_string())));
    assert!(table.contains(&("world".to_string(), "wɜːld".to_string())));
}

#[test]
fn lexicon_binary_errors_and_truncation() {
    assert_eq!(decode_lexicon(&[1, 0]).unwrap_err(), LexiconError::TooShort);
    let mut bad = vec![1, 0, 0, 0, 2, 0, 0, 0, 0xff, 0xfe];
    assert_eq!(decode_lexicon(&bad).unwrap_err(), LexiconError::InvalidUtf8);
    bad.truncate(6);
    assert!(decode_lexicon(&bad).unwrap().is_empty());
    let whole = encode_lexicon(&vec![("a".to_string(), "b".to_string()), ("c".to_string(), "d".to_string())]);
    let cut = &whole[..whole.len() - 2];
    assert_eq!(decode_lexicon(cut).unwrap(), vec![("a".to_string(), "b".to_string())]);
}

#[test]
fn lexicon_sources() {
    assert_eq!(lexicon_candidates("hi-in"), vec!["hi-in".to_string(), "hi".to_string()]);
    assert_eq!(lexicon_candidates("en"), vec!["en".to_string()]);
    assert_eq!(
        lexicon_url("hi"),
        "https://raw.githubusercontent.com/cluaiz/cluaiz/main/assets/ipa_dictionary/hi.txt"
    );
    assert!(needs_compile(true, false, None));
    assert!(needs_compile(true, true, Some(true)));
    assert!(!needs_compile(true, true, Some(false)));
    assert!(!needs_compile(true, true, None));
    assert!(!needs_compile(false, false, None));
}

#[test]
fn compiled_text_lexicon_reads_back() {
    let entries = cluaiz_engines::onnx::ipa_dictionary::parse_lexicon_text("# c\nHello\thəˈloʊ\nworld  wɜːld x\n\n", true);
    let bin = cluaiz_engines::onnx::ipa_dictionary::encode_lexicon(&entries);
    let back = cluaiz_engines::onnx::ipa_dictionary::decode_lexicon(&bin).ok().unwrap();
    assert_eq!(back, entries);
    assert_eq!(back.len(), 2);
}
