use live_bet::models::search::{
    property_embedding, property_to_text, simple_hash, text_to_embedding, EMBEDDING_DIM,
};

#[test]
fn test_embedding_dimension() {
    let emb = text_to_embedding("hello world");
    assert_eq!(emb.to_vec().len(), EMBEDDING_DIM);
}

#[test]
fn test_empty_text_is_zero_vector() {
    let emb = text_to_embedding("");
    assert!(emb.to_vec().iter().all(|&x| x == 0));
}

#[test]
fn test_single_char_words_ignored() {
    let emb = text_to_embedding("a b c");
    assert!(
        emb.to_vec().iter().all(|&x| x == 0),
        "single-char words should be filtered out"
    );
}

#[test]
fn test_deterministic() {
    let a = text_to_embedding("beach house sydney");
    let b = text_to_embedding("beach house sydney");
    assert_eq!(a.to_vec(), b.to_vec());
}

#[test]
fn test_case_insensitive() {
    let a = text_to_embedding("Sydney House");
    let b = text_to_embedding("sydney house");
    assert_eq!(a.to_vec(), b.to_vec());
}

#[test]
fn test_property_to_text_contains_fields() {
    let text = property_to_text("Beach Villa", "Sydney", 3, 1_200_000);
    assert!(text.contains("Beach Villa"));
    assert!(text.contains("Sydney"));
    assert!(text.contains("family"));
    assert!(text.contains("premium"));
}

#[test]
fn test_property_to_text_budget_range() {
    let text = property_to_text("Flat", "Perth", 1, 250_000);
    assert!(text.contains("affordable"));
    assert!(text.contains("studio"));
}

#[test]
fn test_property_to_text_luxury_range() {
    let text = property_to_text("Mansion", "Toorak", 10, 5_000_000);
    assert!(text.contains("luxury"));
    assert!(text.contains("multi-bedroom"));
}

#[test]
fn test_simple_hash_deterministic() {
    assert_eq!(simple_hash("hello", 0), simple_hash("hello", 0));
}

#[test]
fn test_simple_hash_seed_varies() {
    assert_ne!(simple_hash("hello", 0), simple_hash("hello", 1));
}

#[test]
fn simple_hash_exact_values() {
    assert_eq!(simple_hash("hello", 0), 99162322);
    assert_eq!(simple_hash("hello", 1), 1518273985);
    assert_eq!(simple_hash("hello", 2), 2937385648);
    assert_eq!(simple_hash("", 7), 1401181143);
}

#[test]
fn embedding_exact_positions() {
    let v = text_to_embedding("hello world").to_vec();
    let mut expected = vec![0u128; EMBEDDING_DIM];
    // "hello" hashes to 82, 65, 48; "world" to 18, 1, 112.
    expected[82] += 4;
    expected[65] += 2;
    expected[48] += 1;
    expected[18] += 4;
    expected[1] += 2;
    expected[112] += 1;
    assert_eq!(v, expected);
}

#[test]
fn embedding_repeated_word_accumulates() {
    let v = text_to_embedding("hello HELLO x").to_vec();
    assert_eq!(v[82], 8);
    assert_eq!(v[65], 4);
    assert_eq!(v[48], 2);
    assert_eq!(v.iter().sum::<u128>(), 14);
}

#[test]
fn embedding_total_weight_is_seven_quarters_per_word() {
    let v = text_to_embedding("  Mary   had\ta little  \n\t lamb").to_vec();
    // "a" is a single byte and is skipped: four words are counted.
    assert_eq!(v.iter().sum::<u128>(), 28);
}

#[test]
fn embedding_two_byte_character_counts() {
    // "é" is one character but two bytes long, so it counts as a word.
    let v = text_to_embedding("é").to_vec();
    assert_eq!(v.iter().sum::<u128>(), 7);
}

#[test]
fn property_to_text_exact() {
    assert_eq!(
        property_to_text("Beach Villa", "Sydney", 3, 1_200_000),
        "Beach Villa Sydney three bedroom family spacious premium upscale"
    );
    assert_eq!(
        property_to_text("Flat", "Perth", 2, 300_001),
        "Flat Perth two bedroom medium couple moderate mid-range"
    );
    assert_eq!(
        property_to_text("Flat", "Perth", 1, 300_000),
        "Flat Perth one bedroom studio compact single affordable budget entry-level"
    );
    assert_eq!(
        property_to_text("Shed", "Hobart", 0, -5),
        "Shed Hobart large multi-bedroom estate mansion family luxury ultra-premium estate mansion"
    );
    assert_eq!(
        property_to_text("Tower", "Darwin", 4, 1_500_001),
        "Tower Darwin large multi-bedroom estate mansion family luxury ultra-premium estate mansion"
    );
}

#[test]
fn property_embedding_is_embedding_of_text() {
    let text = property_to_text("Beach Villa", "Sydney", 3, 1_200_000);
    assert_eq!(
        property_embedding("Beach Villa", "Sydney", 3, 1_200_000).to_vec(),
        text_to_embedding(&text).to_vec()
    );
}

#[test]
fn embedding_is_a_bag_of_words() {
    let a = text_to_embedding("beach house sydney").to_vec();
    assert_eq!(text_to_embedding("sydney\tBEACH   house").to_vec(), a);
    assert_eq!(text_to_embedding("a beach b house c sydney").to_vec(), a);
    assert_ne!(text_to_embedding("beach house").to_vec(), a);
}

#[test]
fn seeds_give_different_hashes() {
    for s in ["", "a", "hello", "beach house"] {
        assert_ne!(simple_hash(s, 0), simple_hash(s, 1));
        assert_ne!(simple_hash(s, 1), simple_hash(s, 2));
        assert_ne!(simple_hash(s, 0), simple_hash(s, 2));
    }
}

#[test]
fn appending_an_ascii_character_takes_one_hash_step() {
    for (s, c) in [("hello", 'x'), ("", 'a'), ("é", '!')] {
        for seed in [0u32, 1, 2, 77] {
            let longer = format!("{}{}", s, c);
            assert_eq!(
                simple_hash(&longer, seed),
                (simple_hash(s, seed) * 31 + c as usize) % 4294967296
            );
        }
    }
}
