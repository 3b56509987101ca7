use textutils::counts::chars_and_words;
use textutils::lossy::{decode_step, REPLACEMENT};
use textutils::words::is_space;

// Bytes at and beside every boundary that decoding tells apart.
const EDGES: [u8; 30] = [
    0x00, 0x09, 0x0A, 0x20, 0x41, 0x7F, 0x80, 0x85, 0x8F, 0x90, 0x9F, 0xA0, 0xBD, 0xBF, 0xC0, 0xC1,
    0xC2, 0xDF, 0xE0, 0xE1, 0xE2, 0xEC, 0xED, 0xEE, 0xEF, 0xF0, 0xF1, 0xF3, 0xF4, 0xF5,
];

// The scalar values that the steps over `bytes` give, one after the other.
fn decoded(bytes: &[u8]) -> Vec<u32> {
    let mut values = Vec::new();
    let mut at = 0;
    while let Some((value, len)) = decode_step(bytes, at) {
        values.push(value);
        at += len;
    }
    assert_eq!(at, bytes.len());
    values
}

fn agrees_with_std(bytes: &[u8]) {
    let text = String::from_utf8_lossy(bytes);
    let (chars, words) = chars_and_words(bytes);
    assert_eq!(chars, text.chars().count(), "characters of {bytes:?}");
    assert_eq!(words, text.split_whitespace().count(), "words of {bytes:?}");
    let expected: Vec<u32> = text.chars().map(u32::from).collect();
    assert_eq!(decoded(bytes), expected, "text of {bytes:?}");
}

#[test]
fn step_of_well_formed_sequences() {
    assert_eq!(decode_step(b"A", 0), Some((0x41, 1)));
    assert_eq!(decode_step(b"\x7F", 0), Some((0x7F, 1)));
    assert_eq!(decode_step("é".as_bytes(), 0), Some((0xE9, 2)));
    assert_eq!(decode_step(b"\xC2\x80", 0), Some((0x80, 2)));
    assert_eq!(decode_step(b"\xDF\xBF", 0), Some((0x7FF, 2)));
    assert_eq!(decode_step(b"\xE0\xA0\x80", 0), Some((0x800, 3)));
    assert_eq!(decode_step("€".as_bytes(), 0), Some((0x20AC, 3)));
    assert_eq!(decode_step(b"\xED\x9F\xBF", 0), Some((0xD7FF, 3)));
    assert_eq!(decode_step(b"\xEE\x80\x80", 0), Some((0xE000, 3)));
    assert_eq!(decode_step(b"\xEF\xBF\xBD", 0), Some((0xFFFD, 3)));
    assert_eq!(decode_step(b"\xEF\xBF\xBF", 0), Some((0xFFFF, 3)));
    assert_eq!(decode_step(b"\xF0\x90\x80\x80", 0), Some((0x10000, 4)));
    assert_eq!(decode_step("🦀".as_bytes(), 0), Some((0x1F980, 4)));
    assert_eq!(decode_step(b"\xF4\x8F\xBF\xBF", 0), Some((0x10FFFF, 4)));
    assert_eq!(decode_step(b"ab\xC3\xA9c", 2), Some((0xE9, 2)));
    assert_eq!(decode_step(b"ab\xC3\xA9c", 4), Some((0x63, 1)));
}

#[test]
fn step_of_malformed_sequences() {
    // A byte that begins nothing.
    assert_eq!(decode_step(b"\x80", 0), Some((REPLACEMENT, 1)));
    assert_eq!(decode_step(b"\xBF\x80", 0), Some((REPLACEMENT, 1)));
    assert_eq!(decode_step(b"\xC0\x80", 0), Some((REPLACEMENT, 1)));
    assert_eq!(decode_step(b"\xC1\xBF", 0), Some((REPLACEMENT, 1)));
    assert_eq!(decode_step(b"\xF5\x80\x80\x80", 0), Some((REPLACEMENT, 1)));
    assert_eq!(decode_step(b"\xFF", 0), Some((REPLACEMENT, 1)));
    // Overlong forms, surrogates and values past the last scalar value.
    assert_eq!(decode_step(b"\xE0\x9F\xBF", 0), Some((REPLACEMENT, 1)));
    assert_eq!(decode_step(b"\xED\xA0\x80", 0), Some((REPLACEMENT, 1)));
    assert_eq!(decode_step(b"\xF0\x8F\xBF\xBF", 0), Some((REPLACEMENT, 1)));
    assert_eq!(decode_step(b"\xF4\x90\x80\x80", 0), Some((REPLACEMENT, 1)));
    // Sequences that the input cuts short, or that a wrong byte breaks.
    assert_eq!(decode_step(b"\xC3", 0), Some((REPLACEMENT, 1)));
    assert_eq!(decode_step(b"\xC3A", 0), Some((REPLACEMENT, 1)));
    assert_eq!(decode_step(b"\xE2\x82", 0), Some((REPLACEMENT, 2)));
    assert_eq!(decode_step(b"\xE2\x82A", 0), Some((REPLACEMENT, 2)));
    assert_eq!(decode_step(b"\xE2A", 0), Some((REPLACEMENT, 1)));
    assert_eq!(decode_step(b"\xF0\x9F", 0), Some((REPLACEMENT, 2)));
    assert_eq!(decode_step(b"\xF0\x9F\xA6", 0), Some((REPLACEMENT, 3)));
    assert_eq!(decode_step(b"\xF0\x9F\xA6\n", 0), Some((REPLACEMENT, 3)));
    assert_eq!(decode_step(b"\xF0\x9F\xA6\xC0", 0), Some((REPLACEMENT, 3)));
}

#[test]
fn no_step_past_the_end() {
    assert_eq!(decode_step(b"", 0), None);
    assert_eq!(decode_step(b"ab", 2), None);
    assert_eq!(decode_step(b"ab", usize::MAX), None);
    assert_eq!(decode_step(b"ab", 1), Some((0x62, 1)));
}

#[test]
fn whitespace_is_what_std_calls_whitespace() {
    let mut spaces = 0;
    for value in 0..=0x10FFFFu32 {
        if let Some(c) = char::from_u32(value) {
            assert_eq!(is_space(value), c.is_whitespace(), "U+{value:04X}");
            if c.is_whitespace() {
                spaces += 1;
            }
        }
    }
    assert_eq!(spaces, 25);
    assert!(!is_space(REPLACEMENT));
    assert!(!is_space(0xD800));
    assert!(!is_space(u32::MAX));
}

#[test]
fn short_inputs_decode_as_std_does() {
    agrees_with_std(b"");
    for a in 0..=255u8 {
        agrees_with_std(&[a]);
        for b in 0..=255u8 {
            agrees_with_std(&[a, b]);
        }
    }
}

#[test]
fn inputs_at_the_edges_decode_as_std_does() {
    for a in EDGES {
        for b in EDGES {
            for c in EDGES {
                agrees_with_std(&[a, b, c]);
                for d in [0x0A, 0x20, 0x41, 0x80, 0x8F, 0x90, 0xBF, 0xC2, 0xE0, 0xF0, 0xFF] {
                    agrees_with_std(&[a, b, c, d]);
                    agrees_with_std(&[d, a, b, c, 0x80]);
                }
            }
        }
    }
}

#[test]
fn arbitrary_inputs_decode_as_std_does() {
    let mut seed: u64 = 0x2545_F491_4F6C_DD1D;
    let mut next = move || {
        seed ^= seed << 13;
        seed ^= seed >> 7;
        seed ^= seed << 17;
        seed
    };
    for _ in 0..20_000 {
        let len = (next() % 24) as usize;
        let bytes: Vec<u8> = (0..len)
            .map(|_| {
                let draw = next();
                match draw % 4 {
                    0 => EDGES[(draw >> 8) as usize % EDGES.len()],
                    1 => 0x80 | ((draw >> 8) as u8 & 0x3F),
                    _ => (draw >> 8) as u8,
                }
            })
            .collect();
        agrees_with_std(&bytes);
    }
}

#[test]
fn every_character_decodes_to_itself() {
    let mut buf = [0u8; 4];
    for value in 0..=0x10FFFFu32 {
        if let Some(c) = char::from_u32(value) {
            let bytes = c.encode_utf8(&mut buf).as_bytes();
            assert_eq!(decode_step(bytes, 0), Some((value, bytes.len())));
        }
    }
}

#[test]
fn well_formed_text_decodes_to_its_characters() {
    let text = "plain, gr\u{00FC}\u{00DF}e, \u{65E5}\u{672C}\u{8A9E}, \u{1F980}\n\u{FFFD}";
    let expected: Vec<u32> = text.chars().map(u32::from).collect();
    assert_eq!(decoded(text.as_bytes()), expected);
    assert_eq!(decoded(b""), Vec::<u32>::new());
}

#[test]
fn malformed_bytes_decode_to_replacements() {
    assert_eq!(decoded(b"a\xFFb"), [0x61, REPLACEMENT, 0x62]);
    assert_eq!(decoded(b"\xE2\x82"), [REPLACEMENT]);
    assert_eq!(decoded(b"\xE2\x82\xE2\x82\xAC"), [REPLACEMENT, 0x20AC]);
    assert_eq!(decoded(b"\xC0\x80"), [REPLACEMENT, REPLACEMENT]);
    assert_eq!(decoded(b"\xF0\x9F\xA6"), [REPLACEMENT]);
    assert_eq!(decoded(b"\xF0\x9F\xA6\n"), [REPLACEMENT, 0x0A]);
}
