use vstd::prelude::*;
use vstd::string::*;
use vstd::utf8::{encode_utf8, is_ascii_chars, is_ascii_chars_encode_utf8};

use crate::text::{spec_split_whitespace, spec_to_lowercase, split_whitespace, to_lowercase};

verus! {

/// Number of dimensions of a property or query embedding.
pub const EMBEDDING_DIM: usize = 128;

/// The word-hash modulus: the hash is computed in 32-bit wrapping arithmetic.
pub open spec fn hash_modulus() -> nat {
    0x1_0000_0000
}

/// The hash of `bytes` under `seed`: start from `seed * 2654435761` and,
/// for each byte `b` in order, replace `h` by `h * 31 + b`, everything
/// taken modulo 2^32.
pub open spec fn spec_hash_bytes(bytes: Seq<u8>, seed: u32) -> nat
    decreases bytes.len(),
{
    if bytes.len() == 0 {
        (seed as nat * 2654435761) % hash_modulus()
    } else {
        (spec_hash_bytes(bytes.drop_last(), seed) * 31 + bytes.last() as nat) % hash_modulus()
    }
}

proof fn lemma_wrapping_step(h: u32, b: u8)
    ensures
        (h.wrapping_mul(31)).wrapping_add(b as u32) as nat == (h as nat * 31 + b as nat)
            % hash_modulus(),
{
    let m = hash_modulus() as int;
    vstd::arithmetic::div_mod::lemma_add_mod_noop(h as int * 31, b as int, m);
    vstd::arithmetic::div_mod::lemma_small_mod(b as nat, m as nat);
}

/// Multiplying by a number that is invertible modulo 2^32, then adding a
/// fixed amount, maps different residues to different residues.
proof fn lemma_affine_step_injective(x: int, y: int, a: int, inv: int, b: int)
    requires
        0 <= x < hash_modulus(),
        0 <= y < hash_modulus(),
        (a * inv) % (hash_modulus() as int) == 1,
        (x * a + b) % (hash_modulus() as int) == (y * a + b) % (hash_modulus() as int),
    ensures
        x == y,
{
    let m = hash_modulus() as int;
    let d = x - y;
    assert((x * a + b) - (y * a + b) == d * a) by (nonlinear_arith)
        requires
            d == x - y,
    ;
    vstd::arithmetic::div_mod::lemma_mod_equivalence(x * a + b, y * a + b, m);
    assert((d * a) % m == 0);
    vstd::arithmetic::div_mod::lemma_mul_mod_noop_left(d * a, inv, m);
    assert(((d * a) * inv) % m == 0);
    assert((d * a) * inv == d * (a * inv)) by (nonlinear_arith);
    assert(d * 1 == d);
    vstd::arithmetic::div_mod::lemma_mul_mod_noop_right(d, a * inv, m);
    assert(d % m == 0);
    assert(d == 0) by (nonlinear_arith)
        requires
            d % m == 0,
            -m < d < m,
            m > 0,
    ;
}

/// Different seeds give different hashes of the same bytes: the seed enters
/// multiplied by 2654435761 and then by 31 once per byte, both odd and so
/// invertible modulo 2^32.
pub proof fn lemma_seed_changes_hash(bytes: Seq<u8>, s1: u32, s2: u32)
    requires
        s1 != s2,
    ensures
        spec_hash_bytes(bytes, s1) != spec_hash_bytes(bytes, s2),
    decreases bytes.len(),
{
    let m = hash_modulus() as int;
    if bytes.len() == 0 {
        assert((2654435761int * 244002641int) % m == 1);
        if spec_hash_bytes(bytes, s1) == spec_hash_bytes(bytes, s2) {
            assert((s1 as int * 2654435761 + 0) % m == (s2 as int * 2654435761 + 0) % m);
            lemma_affine_step_injective(s1 as int, s2 as int, 2654435761, 244002641, 0);
        }
    } else {
        let rest = bytes.drop_last();
        lemma_seed_changes_hash(rest, s1, s2);
        let h1 = spec_hash_bytes(rest, s1) as int;
        let h2 = spec_hash_bytes(rest, s2) as int;
        vstd::arithmetic::div_mod::lemma_mod_bound(h1, m);
        lemma_hash_below_modulus(rest, s1);
        lemma_hash_below_modulus(rest, s2);
        assert((31int * 3186588639int) % m == 1);
        if spec_hash_bytes(bytes, s1) == spec_hash_bytes(bytes, s2) {
            lemma_affine_step_injective(h1, h2, 31, 3186588639, bytes.last() as int);
        }
    }
}

proof fn lemma_hash_below_modulus(bytes: Seq<u8>, seed: u32)
    ensures
        spec_hash_bytes(bytes, seed) < hash_modulus(),
{
    let m = hash_modulus() as int;
    if bytes.len() == 0 {
        vstd::arithmetic::div_mod::lemma_mod_bound(seed as int * 2654435761, m);
    } else {
        vstd::arithmetic::div_mod::lemma_mod_bound(
            spec_hash_bytes(bytes.drop_last(), seed) * 31 + bytes.last() as int,
            m,
        );
    }
}

proof fn lemma_encode_utf8_append(a: Seq<char>, b: Seq<char>)
    ensures
        encode_utf8(a + b) == encode_utf8(a) + encode_utf8(b),
    decreases a.len(),
{
    if a.len() == 0 {
        assert(a + b =~= b);
        assert(encode_utf8(a) + encode_utf8(b) =~= encode_utf8(b));
    } else {
        lemma_encode_utf8_append(a.drop_first(), b);
        assert((a + b).drop_first() =~= a.drop_first() + b);
        assert((a + b)[0] == a[0]);
        assert(encode_utf8(a + b) =~= encode_utf8(a) + encode_utf8(b));
    }
}

/// Appending an ASCII character to a text takes one more step of the hash:
/// the hash is multiplied by 31 and the character's code is added, modulo
/// 2^32.
pub proof fn lemma_hash_append_ascii(s: Seq<char>, c: char, seed: u32)
    requires
        c <= '\u{7f}',
    ensures
        spec_hash_bytes(encode_utf8(s.push(c)), seed) == (spec_hash_bytes(encode_utf8(s), seed) * 31
            + c as nat) % hash_modulus(),
{
    let one = seq![c];
    assert(is_ascii_chars(one));
    is_ascii_chars_encode_utf8(one);
    assert(encode_utf8(one) =~= seq![c as u8]);
    assert(s.push(c) =~= s + one);
    lemma_encode_utf8_append(s, one);
    let bytes = encode_utf8(s.push(c));
    assert(bytes =~= encode_utf8(s).push(c as u8));
    assert(bytes.drop_last() =~= encode_utf8(s));
}

/// Deterministic hash function used to map words to vector positions.
pub fn simple_hash(s: &str, seed: u32) -> (h: usize)
    ensures
        h as nat == spec_hash_bytes(s.spec_bytes(), seed),
{
    let bytes = s.as_bytes();
    let mut hash: u32 = seed.wrapping_mul(2654435761);
    let mut i: usize = 0;
    while i < bytes.len()
        invariant
            i <= bytes@.len(),
            bytes@ == s.spec_bytes(),
            hash as nat == spec_hash_bytes(bytes@.take(i as int), seed),
        decreases bytes@.len() - i,
    {
        let b = bytes[i];
        proof {
            lemma_wrapping_step(hash, b);
            assert(bytes@.take(i + 1).drop_last() =~= bytes@.take(i as int));
        }
        hash = hash.wrapping_mul(31).wrapping_add(b as u32);
        i = i + 1;
    }
    proof {
        assert(bytes@.take(i as int) =~= bytes@);
    }
    hash as usize
}


/// A word activates embedding positions only when it is longer than one byte.
pub open spec fn word_is_counted(w: Seq<char>) -> bool {
    encode_utf8(w).len() > 1
}

/// The embedding position that `w` activates under `seed`.
pub open spec fn word_bucket(w: Seq<char>, seed: u32) -> int {
    (spec_hash_bytes(encode_utf8(w), seed) % (EMBEDDING_DIM as nat)) as int
}

/// The weight, in quarters, that word `w` adds at position `b`: a counted
/// word adds 1 (4 quarters) at its seed-0 position, 0.5 at its seed-1
/// position and 0.25 at its seed-2 position.
pub open spec fn activation(w: Seq<char>, b: int) -> nat {
    if !word_is_counted(w) {
        0
    } else {
        (if word_bucket(w, 0) == b { 4nat } else { 0nat }) + (if word_bucket(w, 1) == b {
            2nat
        } else {
            0nat
        }) + (if word_bucket(w, 2) == b { 1nat } else { 0nat })
    }
}

/// The total weight, in quarters, that `words` put at position `b`.
pub open spec fn bucket_weight(words: Seq<Seq<char>>, b: int) -> nat
    decreases words.len(),
{
    if words.len() == 0 {
        0
    } else {
        bucket_weight(words.drop_last(), b) + activation(words.last(), b)
    }
}

/// The words of a text that feed its embedding: the whitespace-separated
/// words of its lowercase form.
pub open spec fn embedding_words(text: Seq<char>) -> Seq<Seq<char>> {
    spec_split_whitespace(spec_to_lowercase(text))
}

/// The embedding weights of a text, position by position, in quarters.
pub open spec fn spec_embedding(text: Seq<char>) -> Seq<nat> {
    Seq::new(EMBEDDING_DIM as nat, |b: int| bucket_weight(embedding_words(text), b))
}

/// The raw, not yet normalised embedding of a text.
///
/// Each entry holds a weight in quarters: a weight of 4 stands for 1.0, 2 for
/// 0.5 and 1 for 0.25. Normalising the vector `weights / 4` to unit length
/// gives the vector that is stored and searched with.
pub struct Embedding {
    pub weights: Vec<u128>,
}

impl View for Embedding {
    type V = Seq<nat>;

    open spec fn view(&self) -> Seq<nat> {
        self.weights@.map_values(|x: u128| x as nat)
    }
}

impl Embedding {
    /// The weights, position by position.
    pub fn to_vec(&self) -> (v: Vec<u128>)
        ensures
            v@ == self.weights@,
    {
        let mut v: Vec<u128> = Vec::new();
        let mut i: usize = 0;
        while i < self.weights.len()
            invariant
                i <= self.weights@.len(),
                v@ == self.weights@.take(i as int),
            decreases self.weights@.len() - i,
        {
            v.push(self.weights[i]);
            i = i + 1;
            assert(v@ =~= self.weights@.take(i as int));
        }
        assert(self.weights@.take(i as int) =~= self.weights@);
        v
    }
}

proof fn lemma_bucket_weight_bound(words: Seq<Seq<char>>, b: int)
    ensures
        bucket_weight(words, b) <= 7 * words.len(),
    decreases words.len(),
{
    if words.len() > 0 {
        lemma_bucket_weight_bound(words.drop_last(), b);
    }
}

/// Adds the activations of one word to the weights.
fn add_word(weights: &mut Vec<u128>, w: &str)
    requires
        old(weights)@.len() == EMBEDDING_DIM,
        forall|b: int| 0 <= b < EMBEDDING_DIM ==> #[trigger] old(weights)@[b] + 7 <= u128::MAX,
    ensures
        final(weights)@.len() == EMBEDDING_DIM,
        forall|b: int|
            0 <= b < EMBEDDING_DIM ==> #[trigger] final(weights)@[b] == old(weights)@[b]
                + activation(w@, b),
{
    if w.as_bytes().len() > 1 {
        let h1 = simple_hash(w, 0) % EMBEDDING_DIM;
        let h2 = simple_hash(w, 1) % EMBEDDING_DIM;
        let h3 = simple_hash(w, 2) % EMBEDDING_DIM;
        assert(h1 == word_bucket(w@, 0));
        assert(h2 == word_bucket(w@, 1));
        assert(h3 == word_bucket(w@, 2));
        let ghost before = weights@;
        let x1 = weights[h1] + 4;
        weights.set(h1, x1);
        let x2 = weights[h2] + 2;
        weights.set(h2, x2);
        let x3 = weights[h3] + 1;
        weights.set(h3, x3);
        assert forall|b: int| 0 <= b < EMBEDDING_DIM implies #[trigger] weights@[b] == before[b]
            + activation(w@, b) by {
            assert(word_is_counted(w@));
        }
    } else {
        assert forall|b: int| 0 <= b < EMBEDDING_DIM implies #[trigger] weights@[b] == old(
            weights,
        )@[b] + activation(w@, b) by {
            assert(!word_is_counted(w@));
        }
    }
}

/// Convert text into a fixed-dimension embedding vector.
///
/// Uses a deterministic hash-based approach (similar to feature hashing)
/// to map words into positions in a 128-dimensional vector. Each word of the
/// lowercased text that is longer than one byte activates 3 positions with
/// decreasing weights.
pub fn text_to_embedding(text: &str) -> (e: Embedding)
    ensures
        e@ == spec_embedding(text@),
        text@.len() == 0 ==> forall|b: int| 0 <= b < EMBEDDING_DIM ==> e@[b] == 0,
{
    let mut weights: Vec<u128> = Vec::new();
    while weights.len() < EMBEDDING_DIM
        invariant
            weights@.len() <= EMBEDDING_DIM,
            forall|b: int| 0 <= b < weights@.len() ==> weights@[b] == 0,
        decreases EMBEDDING_DIM - weights@.len(),
    {
        weights.push(0);
    }
    let lower = to_lowercase(text);
    let words = split_whitespace(lower.as_str());
    let ghost ws = words.deep_view();
    assert(ws == embedding_words(text@));
    let mut i: usize = 0;
    while i < words.len()
        invariant
            i <= words@.len(),
            ws == words.deep_view(),
            ws.len() == words@.len(),
            weights@.len() == EMBEDDING_DIM,
            forall|b: int|
                0 <= b < EMBEDDING_DIM ==> #[trigger] weights@[b] == bucket_weight(ws.take(i as int), b),
        decreases words@.len() - i,
    {
        let w = words[i].as_str();
        assert(ws[i as int] == w@);
        assert(ws.take(i + 1).drop_last() =~= ws.take(i as int));
        assert(ws.take(i + 1).last() == w@);
        proof {
            assert forall|b: int| 0 <= b < EMBEDDING_DIM implies #[trigger] weights@[b] <= 7 * i by {
                lemma_bucket_weight_bound(ws.take(i as int), b);
            }
        }
        add_word(&mut weights, w);
        assert forall|b: int| 0 <= b < EMBEDDING_DIM implies #[trigger] weights@[b]
            == bucket_weight(ws.take(i + 1), b) by {
        }
        i = i + 1;
    }
    assert(ws.take(i as int) =~= ws);
    let e = Embedding { weights };
    assert(e@ =~= spec_embedding(text@));
    e
}


/// The price band of a listing: up to 300,000 is affordable, up to 700,000
/// moderate, up to 1,500,000 premium, and anything else (negative prices
/// included) luxury.
pub open spec fn price_description(price: i32) -> Seq<char> {
    if 0 <= price <= 300_000 {
        "affordable budget entry-level"@
    } else if 300_001 <= price <= 700_000 {
        "moderate mid-range"@
    } else if 700_001 <= price <= 1_500_000 {
        "premium upscale"@
    } else {
        "luxury ultra-premium estate mansion"@
    }
}

/// The bedroom description of a listing: one, two and three bedrooms have
/// their own, every other count is a large home.
pub open spec fn bedroom_description(bedroom_no: i32) -> Seq<char> {
    if bedroom_no == 1 {
        "one bedroom studio compact single"@
    } else if bedroom_no == 2 {
        "two bedroom medium couple"@
    } else if bedroom_no == 3 {
        "three bedroom family spacious"@
    } else {
        "large multi-bedroom estate mansion family"@
    }
}

/// The text that describes a listing: name, region, bedroom description and
/// price description, separated by single spaces.
pub open spec fn spec_property_text(
    name: Seq<char>,
    region: Seq<char>,
    bedroom_no: i32,
    price: i32,
) -> Seq<char> {
    name + " "@ + region + " "@ + bedroom_description(bedroom_no) + " "@ + price_description(price)
}

fn price_desc(price: i32) -> (d: &'static str)
    ensures
        d@ == price_description(price),
{
    if 0 <= price && price <= 300_000 {
        "affordable budget entry-level"
    } else if 300_001 <= price && price <= 700_000 {
        "moderate mid-range"
    } else if 700_001 <= price && price <= 1_500_000 {
        "premium upscale"
    } else {
        "luxury ultra-premium estate mansion"
    }
}

fn bed_desc(bedroom_no: i32) -> (d: &'static str)
    ensures
        d@ == bedroom_description(bedroom_no),
{
    if bedroom_no == 1 {
        "one bedroom studio compact single"
    } else if bedroom_no == 2 {
        "two bedroom medium couple"
    } else if bedroom_no == 3 {
        "three bedroom family spacious"
    } else {
        "large multi-bedroom estate mansion family"
    }
}

/// Build a rich text description from property fields for embedding.
pub fn property_to_text(name: &str, region: &str, bedroom_no: i32, price: i32) -> (t: String)
    ensures
        t@ == spec_property_text(name@, region@, bedroom_no, price),
{
    let mut t = name.to_owned();
    t.append(" ");
    t.append(region);
    t.append(" ");
    t.append(bed_desc(bedroom_no));
    t.append(" ");
    t.append(price_desc(price));
    t
}

/// The embedding stored for a listing: that of its description text.
pub fn property_embedding(name: &str, region: &str, bedroom_no: i32, price: i32) -> (e: Embedding)
    ensures
        e@ == spec_embedding(spec_property_text(name@, region@, bedroom_no, price)),
{
    let text = property_to_text(name, region, bedroom_no, price);
    text_to_embedding(text.as_str())
}


/// The number of words that activate embedding positions.
pub open spec fn counted_words(words: Seq<Seq<char>>) -> nat
    decreases words.len(),
{
    if words.len() == 0 {
        0
    } else {
        counted_words(words.drop_last()) + if word_is_counted(words.last()) {
            1nat
        } else {
            0nat
        }
    }
}

/// The sum of a sequence of weights.
pub open spec fn total_weight(ws: Seq<nat>) -> int
    decreases ws.len(),
{
    if ws.len() == 0 {
        0
    } else {
        total_weight(ws.drop_last()) + ws.last()
    }
}

/// The weight that `words` put at positions below `n`.
spec fn weight_below(words: Seq<Seq<char>>, n: int) -> int
    decreases n,
{
    if n <= 0 {
        0
    } else {
        weight_below(words, n - 1) + bucket_weight(words, n - 1)
    }
}

/// The activation of one word at positions below `n`.
spec fn activation_below(w: Seq<char>, n: int) -> int
    decreases n,
{
    if n <= 0 {
        0
    } else {
        activation_below(w, n - 1) + activation(w, n - 1)
    }
}

proof fn lemma_activation_below(w: Seq<char>, n: int)
    requires
        0 <= n,
    ensures
        activation_below(w, n) == if !word_is_counted(w) {
            0
        } else {
            (if word_bucket(w, 0) < n { 4int } else { 0int }) + (if word_bucket(w, 1) < n {
                2int
            } else {
                0int
            }) + (if word_bucket(w, 2) < n { 1int } else { 0int })
        },
    decreases n,
{
    if n > 0 {
        lemma_activation_below(w, n - 1);
    }
}

proof fn lemma_weight_below_step(words: Seq<Seq<char>>, n: int)
    requires
        words.len() > 0,
        0 <= n,
    ensures
        weight_below(words, n) == weight_below(words.drop_last(), n) + activation_below(
            words.last(),
            n,
        ),
    decreases n,
{
    if n > 0 {
        lemma_weight_below_step(words, n - 1);
    }
}

proof fn lemma_weight_below_all(words: Seq<Seq<char>>)
    ensures
        weight_below(words, EMBEDDING_DIM as int) == 7 * counted_words(words),
    decreases words.len(),
{
    if words.len() == 0 {
        assert forall|n: int| 0 <= n implies weight_below(words, n) == 0 by {
            lemma_weight_below_zero(words, n);
        }
    } else {
        lemma_weight_below_all(words.drop_last());
        lemma_weight_below_step(words, EMBEDDING_DIM as int);
        lemma_activation_below(words.last(), EMBEDDING_DIM as int);
    }
}

proof fn lemma_weight_below_zero(words: Seq<Seq<char>>, n: int)
    requires
        words.len() == 0,
    ensures
        weight_below(words, n) == 0,
    decreases n,
{
    if n > 0 {
        lemma_weight_below_zero(words, n - 1);
    }
}

proof fn lemma_total_prefix(text: Seq<char>, n: int)
    requires
        0 <= n <= EMBEDDING_DIM,
    ensures
        total_weight(spec_embedding(text).take(n)) == weight_below(embedding_words(text), n),
    decreases n,
{
    if n > 0 {
        lemma_total_prefix(text, n - 1);
        let e = spec_embedding(text);
        assert(e.take(n).drop_last() =~= e.take(n - 1));
    }
}

/// Every word of the lowercased text longer than one byte adds exactly
/// 1 + 0.5 + 0.25 to the embedding before normalisation: the weights sum to
/// seven quarters per counted word.
pub proof fn lemma_embedding_total_weight(text: Seq<char>)
    ensures
        total_weight(spec_embedding(text)) == 7 * counted_words(embedding_words(text)),
{
    lemma_total_prefix(text, EMBEDDING_DIM as int);
    assert(spec_embedding(text).take(EMBEDDING_DIM as int) =~= spec_embedding(text));
    lemma_weight_below_all(embedding_words(text));
}

/// Words of at most one byte are ignored: a text whose lowercase words are
/// all that short has an all-zero embedding.
pub proof fn lemma_short_words_ignored(text: Seq<char>)
    requires
        forall|i: int|
            0 <= i < embedding_words(text).len() ==> !word_is_counted(
                #[trigger] embedding_words(text)[i],
            ),
    ensures
        forall|b: int| 0 <= b < EMBEDDING_DIM ==> #[trigger] spec_embedding(text)[b] == 0,
{
    let words = embedding_words(text);
    assert forall|b: int| 0 <= b < EMBEDDING_DIM implies #[trigger] spec_embedding(text)[b]
        == 0 by {
        lemma_uncounted_words_weigh_nothing(words, b);
    }
}

proof fn lemma_uncounted_words_weigh_nothing(words: Seq<Seq<char>>, b: int)
    requires
        forall|i: int| 0 <= i < words.len() ==> !word_is_counted(#[trigger] words[i]),
    ensures
        bucket_weight(words, b) == 0,
    decreases words.len(),
{
    if words.len() > 0 {
        let rest = words.drop_last();
        assert forall|i: int| 0 <= i < rest.len() implies !word_is_counted(#[trigger] rest[i]) by {
            assert(rest[i] == words[i]);
        }
        lemma_uncounted_words_weigh_nothing(rest, b);
        assert(!word_is_counted(words[words.len() - 1]));
    }
}

/// The words of `words` that activate positions, in their order.
pub open spec fn counted_only(words: Seq<Seq<char>>) -> Seq<Seq<char>>
    decreases words.len(),
{
    if words.len() == 0 {
        Seq::empty()
    } else {
        let rest = counted_only(words.drop_last());
        if word_is_counted(words.last()) {
            rest.push(words.last())
        } else {
            rest
        }
    }
}

proof fn lemma_weight_push(words: Seq<Seq<char>>, w: Seq<char>, b: int)
    ensures
        bucket_weight(words.push(w), b) == bucket_weight(words, b) + activation(w, b),
{
    assert(words.push(w).drop_last() =~= words);
}

proof fn lemma_weight_of_counted_only(words: Seq<Seq<char>>, b: int)
    ensures
        bucket_weight(counted_only(words), b) == bucket_weight(words, b),
    decreases words.len(),
{
    if words.len() > 0 {
        lemma_weight_of_counted_only(words.drop_last(), b);
        if word_is_counted(words.last()) {
            lemma_weight_push(counted_only(words.drop_last()), words.last(), b);
        }
    }
}

proof fn lemma_weight_append(a: Seq<Seq<char>>, c: Seq<Seq<char>>, b: int)
    ensures
        bucket_weight(a + c, b) == bucket_weight(a, b) + bucket_weight(c, b),
    decreases c.len(),
{
    if c.len() == 0 {
        assert(a + c =~= a);
    } else {
        lemma_weight_append(a, c.drop_last(), b);
        assert((a + c).drop_last() =~= a + c.drop_last());
        assert((a + c).last() == c.last());
    }
}

proof fn lemma_weight_remove(words: Seq<Seq<char>>, i: int, b: int)
    requires
        0 <= i < words.len(),
    ensures
        bucket_weight(words, b) == bucket_weight(words.remove(i), b) + activation(words[i], b),
{
    let front = words.take(i);
    let back = words.skip(i + 1);
    assert(words =~= front + seq![words[i]] + back);
    assert(words.remove(i) =~= front + back);
    lemma_weight_append(front + seq![words[i]], back, b);
    lemma_weight_append(front, seq![words[i]], b);
    lemma_weight_append(front, back, b);
    assert(seq![words[i]] =~= Seq::<Seq<char>>::empty().push(words[i]));
    lemma_weight_push(Seq::empty(), words[i], b);
}

proof fn lemma_weight_of_multiset(ws1: Seq<Seq<char>>, ws2: Seq<Seq<char>>, b: int)
    requires
        ws1.to_multiset() == ws2.to_multiset(),
    ensures
        bucket_weight(ws1, b) == bucket_weight(ws2, b),
    decreases ws1.len(),
{
    broadcast use vstd::seq_lib::group_to_multiset_ensures;
    broadcast use vstd::multiset::group_multiset_axioms;

    if ws1.len() == 0 {
        assert(ws2.to_multiset().len() == 0);
        assert(ws2.len() == 0);
    } else {
        let init = ws1.drop_last();
        let w = ws1.last();
        assert(ws1 =~= init.push(w));
        assert(ws1.to_multiset() =~= init.to_multiset().insert(w));
        assert(ws2.to_multiset().count(w) > 0);
        assert(ws2.contains(w));
        let i = choose|i: int| 0 <= i < ws2.len() && ws2[i] == w;
        let rest = ws2.remove(i);
        assert(rest.to_multiset() =~= ws2.to_multiset().remove(w));
        assert(init.to_multiset() =~= rest.to_multiset());
        lemma_weight_of_multiset(init, rest, b);
        lemma_weight_remove(ws2, i, b);
        lemma_weight_push(init, w, b);
    }
}

/// The embedding is a bag of words: it depends only on how often each word
/// longer than one byte occurs among the lowercase words, not on their
/// order, on the whitespace between them, or on one-byte words.
pub proof fn lemma_embedding_is_bag_of_words(t1: Seq<char>, t2: Seq<char>)
    requires
        counted_only(embedding_words(t1)).to_multiset() == counted_only(
            embedding_words(t2),
        ).to_multiset(),
    ensures
        spec_embedding(t1) == spec_embedding(t2),
{
    assert forall|b: int| 0 <= b < EMBEDDING_DIM implies #[trigger] spec_embedding(t1)[b]
        == spec_embedding(t2)[b] by {
        lemma_weight_of_counted_only(embedding_words(t1), b);
        lemma_weight_of_counted_only(embedding_words(t2), b);
        lemma_weight_of_multiset(
            counted_only(embedding_words(t1)),
            counted_only(embedding_words(t2)),
            b,
        );
    }
    assert(spec_embedding(t1) =~= spec_embedding(t2));
}

/// The number of words whose UTF-8 encoding is at least two bytes long.
pub open spec fn words_of_two_or_more_bytes(words: Seq<Seq<char>>) -> nat
    decreases words.len(),
{
    if words.len() == 0 {
        0
    } else {
        words_of_two_or_more_bytes(words.drop_last()) + if encode_utf8(words.last()).len() >= 2 {
            1nat
        } else {
            0nat
        }
    }
}

/// One more word adds, at each position, 4 quarters where the word's
/// seed-0 hash lands, 2 where its seed-1 hash lands and 1 where its seed-2
/// hash lands, all modulo 128, when the word is at least two bytes long,
/// and nothing otherwise.
pub proof fn lemma_word_adds_weights(words: Seq<Seq<char>>, w: Seq<char>, b: int)
    ensures
        bucket_weight(words.push(w), b) == bucket_weight(words, b) + if encode_utf8(w).len() >= 2 {
            (if spec_hash_bytes(encode_utf8(w), 0) % 128 == b { 4int } else { 0int }) + (if spec_hash_bytes(
                encode_utf8(w),
                1,
            ) % 128 == b {
                2int
            } else {
                0int
            }) + (if spec_hash_bytes(encode_utf8(w), 2) % 128 == b { 1int } else { 0int })
        } else {
            0int
        },
{
    lemma_weight_push(words, w, b);
}

proof fn lemma_counted_words_two_bytes(words: Seq<Seq<char>>)
    ensures
        counted_words(words) == words_of_two_or_more_bytes(words),
    decreases words.len(),
{
    if words.len() > 0 {
        lemma_counted_words_two_bytes(words.drop_last());
    }
}

/// The weights of a text's embedding sum to 7 quarters (1 + 0.5 + 0.25) for
/// every lowercase word of two or more bytes, and nothing for shorter words.
pub proof fn lemma_embedding_weight_per_long_word(text: Seq<char>)
    ensures
        total_weight(spec_embedding(text)) == 7 * words_of_two_or_more_bytes(
            spec_split_whitespace(spec_to_lowercase(text)),
        ),
{
    lemma_embedding_total_weight(text);
    lemma_counted_words_two_bytes(embedding_words(text));
}

/// Whether `s` ends with `suffix`.
pub open spec fn ends_with(s: Seq<char>, suffix: Seq<char>) -> bool {
    suffix.len() <= s.len() && s.subrange(s.len() - suffix.len(), s.len() as int) == suffix
}

/// The listing text starts with the name, a space, the region and a space,
/// and then names the bedroom count: "one bedroom ..." for 1, "two bedroom
/// ..." for 2, "three bedroom ..." for 3 and "large multi-bedroom ..." for
/// any other count.
pub proof fn lemma_listing_text_bedrooms(
    name: Seq<char>,
    region: Seq<char>,
    bedroom_no: i32,
    price: i32,
)
    ensures
        ({
            let t = spec_property_text(name, region, bedroom_no, price);
            let after = t.skip(name.len() + region.len() + 2int);
            &&& t.take(name.len() as int) == name
            &&& t.subrange(name.len() + 1int, name.len() + 1int + region.len()) == region
            &&& bedroom_no == 1 ==> after.take("one bedroom studio compact single"@.len() as int)
                == "one bedroom studio compact single"@
            &&& bedroom_no == 2 ==> after.take("two bedroom medium couple"@.len() as int)
                == "two bedroom medium couple"@
            &&& bedroom_no == 3 ==> after.take("three bedroom family spacious"@.len() as int)
                == "three bedroom family spacious"@
            &&& (bedroom_no < 1 || bedroom_no > 3) ==> after.take(
                "large multi-bedroom estate mansion family"@.len() as int,
            ) == "large multi-bedroom estate mansion family"@
        }),
{
    let t = spec_property_text(name, region, bedroom_no, price);
    let d = bedroom_description(bedroom_no);
    let rest = d + " "@ + price_description(price);
    assert(t =~= name + " "@ + region + " "@ + rest);
    reveal_strlit(" ");
    assert(t.take(name.len() as int) =~= name);
    assert(t.subrange(name.len() + 1int, name.len() + 1int + region.len()) =~= region);
    assert(t.skip(name.len() + region.len() + 2int) =~= rest);
    assert(rest.take(d.len() as int) =~= d);
}

/// The listing text ends with the price band: "affordable budget
/// entry-level" from 0 to 300,000, "moderate mid-range" from 300,001 to
/// 700,000, "premium upscale" from 700,001 to 1,500,000, and "luxury
/// ultra-premium estate mansion" for every other price, negative ones too.
pub proof fn lemma_listing_text_price_band(
    name: Seq<char>,
    region: Seq<char>,
    bedroom_no: i32,
    price: i32,
)
    ensures
        ({
            let t = spec_property_text(name, region, bedroom_no, price);
            &&& 0 <= price <= 300_000 ==> ends_with(t, "affordable budget entry-level"@)
            &&& 300_001 <= price <= 700_000 ==> ends_with(t, "moderate mid-range"@)
            &&& 700_001 <= price <= 1_500_000 ==> ends_with(t, "premium upscale"@)
            &&& (price < 0 || price > 1_500_000) ==> ends_with(
                t,
                "luxury ultra-premium estate mansion"@,
            )
        }),
{
    let t = spec_property_text(name, region, bedroom_no, price);
    let d = price_description(price);
    let front = name + " "@ + region + " "@ + bedroom_description(bedroom_no) + " "@;
    assert(t =~= front + d);
    assert(t.subrange(t.len() - d.len(), t.len() as int) =~= d);
}

/// The listing text is exactly the name, the region, the bedroom phrase and
/// the price phrase, each pair separated by one space, with nothing before,
/// between or after them.
pub proof fn lemma_listing_text_exact(name: Seq<char>, region: Seq<char>, bedroom_no: i32, price: i32)
    ensures
        spec_property_text(name, region, bedroom_no, price) == name + " "@ + region + " "@ + (
        if bedroom_no == 1 {
            "one bedroom studio compact single"@
        } else if bedroom_no == 2 {
            "two bedroom medium couple"@
        } else if bedroom_no == 3 {
            "three bedroom family spacious"@
        } else {
            "large multi-bedroom estate mansion family"@
        }) + " "@ + (if 0 <= price <= 300_000 {
            "affordable budget entry-level"@
        } else if 300_001 <= price <= 700_000 {
            "moderate mid-range"@
        } else if 700_001 <= price <= 1_500_000 {
            "premium upscale"@
        } else {
            "luxury ultra-premium estate mansion"@
        }),
{
}

/// The embedding ignores case: texts with the same lowercase form have the
/// same embedding.
pub proof fn lemma_embedding_ignores_case(a: Seq<char>, b: Seq<char>)
    requires
        spec_to_lowercase(a) == spec_to_lowercase(b),
    ensures
        spec_embedding(a) == spec_embedding(b),
{
}

} // verus!
