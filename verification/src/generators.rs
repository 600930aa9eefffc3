//! Generator types and key generators.

use vstd::prelude::*;

use crate::encoding::{base64_encode, hex_digit_code, hex_encode, lemma_hex_digits, lemma_base64_round_trip, lemma_base64_well_formed, spec_base64_decode, lemma_hex_well_formed, push_char, spec_base64, spec_hex, all_in, some_in, BASE64_CHARS, HEX_CHARS};
use crate::rng::{draw_below, draw_bytes, draw_shuffle, lemma_draw_below_bound, lemma_draw_bytes_direct, lemma_draw_bytes_len, range_threshold, word_byte, lemma_shuffle_permutes, Rng};

verus! {


/// Lower-case letters.
pub const LOWER: [char; 26] = ['a', 'b', 'c', 'd', 'e', 'f', 'g', 'h', 'i', 'j', 'k', 'l', 'm', 'n', 'o', 'p', 'q', 'r', 's', 't', 'u', 'v', 'w', 'x', 'y', 'z'];

/// Upper-case letters.
pub const UPPER: [char; 26] = ['A', 'B', 'C', 'D', 'E', 'F', 'G', 'H', 'I', 'J', 'K', 'L', 'M', 'N', 'O', 'P', 'Q', 'R', 'S', 'T', 'U', 'V', 'W', 'X', 'Y', 'Z'];

/// Decimal digits.
pub const DIGITS: [char; 10] = ['0', '1', '2', '3', '4', '5', '6', '7', '8', '9'];

/// Symbols a password may hold.
pub const SYMBOLS: [char; 26] = ['!', '@', '#', '$', '%', '^', '&', '*', '(', ')', '-', '_', '=', '+', '[', ']', '{', '}', '|', ';', ':', ',', '.', '<', '>', '?'];

/// Characters of a WPA key.
pub const ASCII_PRINTABLE: [char; 76] = ['A', 'B', 'C', 'D', 'E', 'F', 'G', 'H', 'I', 'J', 'K', 'L', 'M', 'N', 'O', 'P', 'Q', 'R', 'S', 'T', 'U', 'V', 'W', 'X', 'Y', 'Z', 'a', 'b', 'c', 'd', 'e', 'f', 'g', 'h', 'i', 'j', 'k', 'l', 'm', 'n', 'o', 'p', 'q', 'r', 's', 't', 'u', 'v', 'w', 'x', 'y', 'z', '0', '1', '2', '3', '4', '5', '6', '7', '8', '9', '!', '@', '#', '$', '%', '^', '&', '*', '(', ')', '-', '_', '=', '+'];


/// The kinds of secret the tool can generate.
#[derive(Debug, Clone, Copy, PartialEq, Eq, Structural)]
pub enum GenType {
    Password,
    Pin,
    Passphrase,
    HexKey,
    Base64Key,
    WpaKey,
}

impl GenType {
    /// The generator types, in menu order.
    pub fn all() -> (r: &'static [GenType])
        ensures
            r@ == seq![GenType::Password, GenType::Pin, GenType::Passphrase, GenType::HexKey, GenType::Base64Key, GenType::WpaKey],
    {
        &[
            GenType::Password,
            GenType::Pin,
            GenType::Passphrase,
            GenType::HexKey,
            GenType::Base64Key,
            GenType::WpaKey,
        ]
    }

    /// The name shown in the type menu.
    pub open spec fn spec_label(&self) -> &'static str {
        match self {
            GenType::Password => "Password",
            GenType::Pin => "PIN Code",
            GenType::Passphrase => "Passphrase",
            GenType::HexKey => "Hex Key",
            GenType::Base64Key => "Base64 Key",
            GenType::WpaKey => "WPA Key",
        }
    }

    #[verifier::when_used_as_spec(spec_label)]
    pub fn label(&self) -> (r: &'static str)
        ensures
            r == self.spec_label(),
    {
        match self {
            GenType::Password => "Password",
            GenType::Pin => "PIN Code",
            GenType::Passphrase => "Passphrase",
            GenType::HexKey => "Hex Key",
            GenType::Base64Key => "Base64 Key",
            GenType::WpaKey => "WPA Key",
        }
    }

    /// A one-line description of what the generator produces.
    pub open spec fn spec_description(&self) -> &'static str {
        match self {
            GenType::Password => "Mixed chars: A-Z, a-z, 0-9, symbols",
            GenType::Pin => "Numeric only: 4-12 digits",
            GenType::Passphrase => "Random word sequence (Diceware-style)",
            GenType::HexKey => "Random hex bytes (for crypto keys)",
            GenType::Base64Key => "Random base64-encoded bytes",
            GenType::WpaKey => "63-char max ASCII for WPA2",
        }
    }

    #[verifier::when_used_as_spec(spec_description)]
    pub fn description(&self) -> (r: &'static str)
        ensures
            r == self.spec_description(),
    {
        match self {
            GenType::Password => "Mixed chars: A-Z, a-z, 0-9, symbols",
            GenType::Pin => "Numeric only: 4-12 digits",
            GenType::Passphrase => "Random word sequence (Diceware-style)",
            GenType::HexKey => "Random hex bytes (for crypto keys)",
            GenType::Base64Key => "Random base64-encoded bytes",
            GenType::WpaKey => "63-char max ASCII for WPA2",
        }
    }

    /// The length a new configuration starts from (characters, words or bytes).
    pub open spec fn spec_default_length(&self) -> usize {
        match self {
            GenType::Password => 16,
            GenType::Pin => 6,
            GenType::Passphrase => 6,
            GenType::HexKey => 32,
            GenType::Base64Key => 32,
            GenType::WpaKey => 20,
        }
    }

    #[verifier::when_used_as_spec(spec_default_length)]
    pub fn default_length(&self) -> (r: usize)
        ensures
            r == self.spec_default_length(),
    {
        match self {
            GenType::Password => 16,
            GenType::Pin => 6,
            GenType::Passphrase => 6,
            GenType::HexKey => 32,
            GenType::Base64Key => 32,
            GenType::WpaKey => 20,
        }
    }

    /// The smallest length the configuration screen allows.
    pub open spec fn spec_min_length(&self) -> usize {
        match self {
            GenType::Password => 8,
            GenType::Pin => 4,
            GenType::Passphrase => 3,
            GenType::HexKey => 8,
            GenType::Base64Key => 8,
            GenType::WpaKey => 8,
        }
    }

    #[verifier::when_used_as_spec(spec_min_length)]
    pub fn min_length(&self) -> (r: usize)
        ensures
            r == self.spec_min_length(),
    {
        match self {
            GenType::Password => 8,
            GenType::Pin => 4,
            GenType::Passphrase => 3,
            GenType::HexKey => 8,
            GenType::Base64Key => 8,
            GenType::WpaKey => 8,
        }
    }

    /// The largest length the configuration screen allows.
    pub open spec fn spec_max_length(&self) -> usize {
        match self {
            GenType::Password => 64,
            GenType::Pin => 12,
            GenType::Passphrase => 12,
            GenType::HexKey => 64,
            GenType::Base64Key => 64,
            GenType::WpaKey => 63,
        }
    }

    #[verifier::when_used_as_spec(spec_max_length)]
    pub fn max_length(&self) -> (r: usize)
        ensures
            r == self.spec_max_length(),
    {
        match self {
            GenType::Password => 64,
            GenType::Pin => 12,
            GenType::Passphrase => 12,
            GenType::HexKey => 64,
            GenType::Base64Key => 64,
            GenType::WpaKey => 63,
        }
    }

    /// The unit in which the length is counted.
    pub open spec fn spec_length_unit(&self) -> &'static str {
        match self {
            GenType::Passphrase => "words",
            GenType::HexKey | GenType::Base64Key => "bytes",
            _ => "chars",
        }
    }

    #[verifier::when_used_as_spec(spec_length_unit)]
    pub fn length_unit(&self) -> (r: &'static str)
        ensures
            r == self.spec_length_unit(),
    {
        match self {
            GenType::Passphrase => "words",
            GenType::HexKey | GenType::Base64Key => "bytes",
            _ => "chars",
        }
    }

    /// Whole bits of entropy counted for each unit of length.
    pub open spec fn bits_per_unit(self) -> u32 {
        match self {
            GenType::Password => 6,
            GenType::Pin => 3,
            GenType::Passphrase => 9,
            GenType::HexKey | GenType::Base64Key => 8,
            GenType::WpaKey => 6,
        }
    }
}

/// The integer entropy estimate shown on screen, in bits.
pub open spec fn spec_entropy_display(gen_type: GenType, length: usize) -> int {
    gen_type.bits_per_unit() * (length as u32)
}

/// For a length that fits in a `u32`, the entropy figure is the length
/// times the per-unit rate.
pub proof fn lemma_entropy_display_value(gen_type: GenType, length: usize)
    requires
        length <= u32::MAX,
    ensures
        spec_entropy_display(gen_type, length) == gen_type.bits_per_unit() * length,
{
    assert(length as u32 == length) by (bit_vector)
        requires length <= 0xffff_ffffusize;
}

/// Law: the entropy figure is 6 bits per character for passwords and WPA
/// keys, 3 per PIN digit, 9 per passphrase word and 8 per byte of hex or
/// base64 keys.
pub proof fn lemma_entropy_rates(length: usize)
    requires
        length <= u32::MAX,
    ensures
        spec_entropy_display(GenType::Password, length) == 6 * length,
        spec_entropy_display(GenType::Pin, length) == 3 * length,
        spec_entropy_display(GenType::Passphrase, length) == 9 * length,
        spec_entropy_display(GenType::HexKey, length) == 8 * length,
        spec_entropy_display(GenType::Base64Key, length) == 8 * length,
        spec_entropy_display(GenType::WpaKey, length) == 6 * length,
{
    assert(length as u32 == length) by (bit_vector)
        requires length <= 0xffff_ffffusize;
}

/// Law: the menu names and the length limits of each type, as
/// (default, minimum, maximum): Password (16, 8, 64) characters, PIN Code
/// (6, 4, 12) digits, Passphrase (6, 3, 12) words, Hex Key and Base64 Key
/// (32, 8, 64) bytes, WPA Key (20, 8, 63) characters.
pub proof fn lemma_type_table()
    ensures
        GenType::Password.spec_label() == "Password" && GenType::Password.spec_default_length() == 16
            && GenType::Password.spec_min_length() == 8 && GenType::Password.spec_max_length() == 64
            && GenType::Password.spec_length_unit() == "chars",
        GenType::Pin.spec_label() == "PIN Code" && GenType::Pin.spec_default_length() == 6
            && GenType::Pin.spec_min_length() == 4 && GenType::Pin.spec_max_length() == 12
            && GenType::Pin.spec_length_unit() == "chars",
        GenType::Passphrase.spec_label() == "Passphrase" && GenType::Passphrase.spec_default_length() == 6
            && GenType::Passphrase.spec_min_length() == 3 && GenType::Passphrase.spec_max_length() == 12
            && GenType::Passphrase.spec_length_unit() == "words",
        GenType::HexKey.spec_label() == "Hex Key" && GenType::HexKey.spec_default_length() == 32
            && GenType::HexKey.spec_min_length() == 8 && GenType::HexKey.spec_max_length() == 64
            && GenType::HexKey.spec_length_unit() == "bytes",
        GenType::Base64Key.spec_label() == "Base64 Key" && GenType::Base64Key.spec_default_length() == 32
            && GenType::Base64Key.spec_min_length() == 8 && GenType::Base64Key.spec_max_length() == 64
            && GenType::Base64Key.spec_length_unit() == "bytes",
        GenType::WpaKey.spec_label() == "WPA Key" && GenType::WpaKey.spec_default_length() == 20
            && GenType::WpaKey.spec_min_length() == 8 && GenType::WpaKey.spec_max_length() == 63
            && GenType::WpaKey.spec_length_unit() == "chars",
{
}

/// Whether `entropy_display` can compute the figure for these arguments
/// without overflow.
pub fn entropy_fits(gen_type: GenType, length: usize) -> (r: bool)
    ensures
        r == (spec_entropy_display(gen_type, length) <= u32::MAX),
{
    let units = length as u32;
    let limit: u32 = match gen_type {
        GenType::Password | GenType::WpaKey => 715827882,
        GenType::Pin => 1431655765,
        GenType::Passphrase => 477218588,
        GenType::HexKey | GenType::Base64Key => 536870911,
    };
    assert(gen_type.bits_per_unit() * limit <= u32::MAX);
    assert(gen_type.bits_per_unit() * (limit + 1) > u32::MAX);
    units <= limit
}

/// Entropy estimate in whole bits: the length (taken as a `u32`) times a
/// per-unit rate that rounds the exact rate down.
pub fn entropy_display(gen_type: GenType, length: usize) -> (r: u32)
    requires
        spec_entropy_display(gen_type, length) <= u32::MAX,
    ensures
        r == spec_entropy_display(gen_type, length),
{
    let units = length as u32;
    let rate: u32 = match gen_type {
        GenType::Password => 6,
        GenType::Pin => 3,
        GenType::Passphrase => 9,
        GenType::HexKey | GenType::Base64Key => 8,
        GenType::WpaKey => 6,
    };
    assert(rate == gen_type.bits_per_unit());
    units * rate
}

/// Diceware-style word list (a compact subset for embedded use).
pub const WORDS: [&'static str; 631] = [
    "about", "above", "acid", "aged", "also", "area", "army", "away",
    "baby", "back", "ball", "band", "bank", "base", "bath", "bean",
    "bear", "beat", "been", "bell", "belt", "best", "bill", "bird",
    "bite", "blow", "blue", "boat", "body", "bolt", "bomb", "bond",
    "bone", "book", "born", "boss", "both", "bowl", "bulk", "burn",
    "cake", "call", "calm", "came", "camp", "card", "care", "case",
    "cash", "cast", "cell", "chat", "chip", "city", "clay", "club",
    "coal", "coat", "code", "coin", "cold", "come", "cook", "cool",
    "cope", "copy", "core", "cost", "crew", "crop", "crow", "cure",
    "dark", "data", "date", "dawn", "dead", "deal", "dear", "debt",
    "deep", "deny", "desk", "dial", "diet", "dirt", "dish", "disk",
    "dock", "does", "dome", "done", "door", "dose", "down", "draw",
    "drew", "drop", "drum", "dual", "duke", "dump", "dust", "duty",
    "each", "earn", "ease", "east", "edge", "else", "even", "ever",
    "exam", "evil", "exit", "face", "fact", "fail", "fair", "fall",
    "fame", "farm", "fast", "fate", "fear", "feed", "feel", "feet",
    "fell", "felt", "file", "fill", "film", "find", "fine", "fire",
    "firm", "fish", "fist", "five", "flag", "flat", "fled", "flew",
    "flip", "flow", "fold", "folk", "food", "foot", "ford", "form",
    "fort", "foul", "four", "free", "from", "fuel", "full", "fund",
    "gain", "game", "gang", "gate", "gave", "gear", "gene", "gift",
    "girl", "give", "glad", "glow", "glue", "goal", "goat", "goes",
    "gold", "golf", "gone", "good", "grab", "gray", "grew", "grid",
    "grip", "grow", "gulf", "guru", "hair", "half", "hall", "halt",
    "hand", "hang", "hard", "harm", "hate", "have", "head", "heal",
    "heap", "hear", "heat", "help", "herb", "here", "hero", "hide",
    "high", "hike", "hill", "hint", "hire", "hold", "hole", "holy",
    "home", "hope", "horn", "host", "hour", "huge", "hung", "hunt",
    "hurt", "idea", "inch", "into", "iron", "item", "jack", "jail",
    "jazz", "jean", "jobs", "join", "joke", "jump", "june", "jury",
    "just", "keen", "keep", "kept", "kick", "kill", "kind", "king",
    "knee", "knew", "knit", "knot", "know", "lack", "laid", "lake",
    "lamp", "land", "lane", "last", "late", "lawn", "lead", "leaf",
    "lean", "left", "lend", "lens", "less", "lick", "life", "lift",
    "like", "limb", "lime", "line", "link", "lion", "list", "live",
    "load", "loan", "lock", "logo", "long", "look", "lord", "lose",
    "loss", "lost", "loud", "love", "luck", "lump", "lung", "made",
    "mail", "main", "make", "male", "mall", "many", "mark", "mask",
    "mass", "math", "maze", "meal", "mean", "meat", "meet", "melt",
    "menu", "mere", "mild", "mile", "milk", "mill", "mind", "mine",
    "mint", "miss", "mode", "mood", "moon", "more", "most", "move",
    "much", "must", "myth", "nail", "name", "navy", "near", "neat",
    "neck", "need", "nest", "news", "next", "nine", "node", "none",
    "noon", "norm", "nose", "note", "noun", "odds", "okay", "once",
    "only", "onto", "open", "oral", "oven", "over", "pace", "pack",
    "page", "paid", "pain", "pair", "pale", "palm", "park", "part",
    "pass", "past", "path", "peak", "peer", "pick", "pile", "pine",
    "pink", "pipe", "plan", "play", "plot", "plug", "plus", "poem",
    "poet", "poll", "pond", "pool", "poor", "pope", "port", "pose",
    "post", "pour", "pray", "pull", "pump", "pure", "push", "quit",
    "race", "rage", "raid", "rail", "rain", "rank", "rare", "rate",
    "read", "real", "rear", "rely", "rent", "rest", "rice", "rich",
    "ride", "ring", "rise", "risk", "road", "rock", "rode", "role",
    "roll", "roof", "room", "root", "rope", "rose", "ruin", "rule",
    "rush", "safe", "said", "sake", "sale", "salt", "same", "sand",
    "sang", "save", "seal", "seat", "seed", "seek", "seem", "seen",
    "self", "sell", "send", "sent", "sept", "shed", "shin", "ship",
    "shop", "shot", "show", "shut", "sick", "side", "sign", "silk",
    "sing", "sink", "site", "size", "skin", "slam", "slid", "slim",
    "slip", "slot", "slow", "snap", "snow", "soap", "sock", "soft",
    "soil", "sold", "sole", "some", "song", "soon", "sort", "soul",
    "span", "spin", "spot", "star", "stay", "stem", "step", "stir",
    "stop", "such", "suit", "sure", "swim", "tail", "take", "tale",
    "talk", "tall", "tank", "tape", "task", "taxi", "team", "tell",
    "tend", "tent", "term", "test", "text", "than", "that", "them",
    "then", "they", "thin", "this", "thus", "tick", "tide", "tidy",
    "tied", "tier", "tile", "till", "time", "tiny", "tire", "toad",
    "told", "toll", "tone", "took", "tool", "tops", "tore", "torn",
    "tour", "town", "trap", "tree", "trim", "trip", "true", "tube",
    "tuck", "tune", "turn", "twin", "type", "ugly", "undo", "unit",
    "upon", "urge", "used", "user", "vale", "vary", "vast", "verb",
    "very", "veto", "vice", "view", "vine", "visa", "void", "volt",
    "vote", "wade", "wage", "wait", "wake", "walk", "wall", "want",
    "ward", "warm", "warn", "wash", "vast", "wave", "weak", "wear",
    "weed", "week", "well", "went", "were", "west", "what", "when",
    "whom", "wide", "wife", "wild", "will", "wind", "wine", "wing",
    "wire", "wise", "wish", "with", "woke", "wolf", "wood", "wool",
    "word", "wore", "work", "worm", "worn", "wrap", "writ", "yard",
    "yeah", "year", "yell", "yoga", "zero", "zone", "zoom",
];

/// `n` uniform draws below `max`, in order.
pub open spec fn draw_indices(ws: Seq<u32>, max: u32, n: nat) -> Option<(Seq<u32>, Seq<u32>)>
    decreases n,
{
    if n == 0 {
        Some((Seq::<u32>::empty(), ws))
    } else {
        match draw_below(ws, max) {
            Some((i, ws1)) => match draw_indices(ws1, max, (n - 1) as nat) {
                Some((rest, ws2)) => Some((seq![i] + rest, ws2)),
                None => None,
            },
            None => None,
        }
    }
}

/// The characters of `cs` at the positions `idx`.
pub open spec fn chars_at(cs: Seq<char>, idx: Seq<u32>) -> Seq<char> {
    idx.map_values(|i: u32| cs[i as int])
}

/// `n` characters, each picked uniformly from `cs`.
pub open spec fn draw_chars(ws: Seq<u32>, cs: Seq<char>, n: nat) -> Option<(Seq<char>, Seq<u32>)> {
    match draw_indices(ws, cs.len() as u32, n) {
        Some((idx, rest)) => Some((chars_at(cs, idx), rest)),
        None => None,
    }
}

/// One character picked uniformly from `cs`.
pub open spec fn draw_char(ws: Seq<u32>, cs: Seq<char>) -> Option<(char, Seq<u32>)> {
    match draw_below(ws, cs.len() as u32) {
        Some((i, rest)) => Some((cs[i as int], rest)),
        None => None,
    }
}

/// The characters a password is drawn from.
pub open spec fn password_chars() -> Seq<char> {
    LOWER@ + UPPER@ + DIGITS@ + SYMBOLS@
}

/// A password of `length` characters. From four characters on, one
/// lower-case letter, one upper-case letter, one digit and one symbol are
/// drawn first, the rest from the whole set, and the lot is shuffled.
pub open spec fn draw_password(ws: Seq<u32>, length: nat) -> Option<(Seq<char>, Seq<u32>)> {
    if length >= 4 {
        match draw_char(ws, LOWER@) {
            None => None,
            Some((a, w1)) => match draw_char(w1, UPPER@) {
                None => None,
                Some((b, w2)) => match draw_char(w2, DIGITS@) {
                    None => None,
                    Some((c, w3)) => match draw_char(w3, SYMBOLS@) {
                        None => None,
                        Some((d, w4)) => match draw_chars(w4, password_chars(), (length - 4) as nat) {
                            None => None,
                            Some((rest, w5)) => draw_shuffle(seq![a, b, c, d] + rest, w5),
                        },
                    },
                },
            },
        }
    } else {
        draw_chars(ws, password_chars(), length)
    }
}

/// Words joined with `-` between them.
pub open spec fn join_with_dash(words: Seq<Seq<char>>) -> Seq<char>
    decreases words.len(),
{
    if words.len() == 0 {
        Seq::<char>::empty()
    } else if words.len() == 1 {
        words[0]
    } else {
        join_with_dash(words.drop_last()) + seq!['-'] + words.last()
    }
}

/// The words of the list at the positions `idx`.
pub open spec fn words_at(idx: Seq<u32>) -> Seq<Seq<char>> {
    idx.map_values(|i: u32| WORDS@[i as int]@)
}

/// A passphrase of `n` words picked uniformly from the list.
pub open spec fn draw_passphrase(ws: Seq<u32>, n: nat) -> Option<(Seq<char>, Seq<u32>)> {
    match draw_indices(ws, WORDS@.len() as u32, n) {
        Some((idx, rest)) => Some((join_with_dash(words_at(idx)), rest)),
        None => None,
    }
}

/// `n` random bytes in hex.
pub open spec fn draw_hex_key(ws: Seq<u32>, n: nat) -> Option<(Seq<char>, Seq<u32>)> {
    match draw_bytes(ws, n) {
        Some((bs, rest)) => Some((spec_hex(bs), rest)),
        None => None,
    }
}

/// `n` random bytes in base64.
pub open spec fn draw_base64_key(ws: Seq<u32>, n: nat) -> Option<(Seq<char>, Seq<u32>)> {
    match draw_bytes(ws, n) {
        Some((bs, rest)) => Some((spec_base64(bs), rest)),
        None => None,
    }
}

/// The key that `generate` draws for a type and length.
pub open spec fn draw_key(ws: Seq<u32>, gen_type: GenType, length: nat) -> Option<(Seq<char>, Seq<u32>)> {
    match gen_type {
        GenType::Password => draw_password(ws, length),
        GenType::Pin => draw_chars(ws, DIGITS@, length),
        GenType::Passphrase => draw_passphrase(ws, length),
        GenType::HexKey => draw_hex_key(ws, length),
        GenType::Base64Key => draw_base64_key(ws, length),
        GenType::WpaKey => draw_chars(ws, ASCII_PRINTABLE@, length),
    }
}

/// How a generator's result and the supply left after it relate to the
/// drawn outcome: the drawn text and the words after it, or `None` with
/// the supply used up.
pub open spec fn drawn(r: Option<String>, outcome: Option<(Seq<char>, Seq<u32>)>, after: Seq<u32>) -> bool {
    match outcome {
        Some((s, rest)) => r matches Some(v) && v@ == s && after == rest,
        None => r is None && after.len() == 0,
    }
}

/// The word list as character sequences.
pub open spec fn word_list() -> Seq<Seq<char>> {
    WORDS@.map_values(|w: &str| w@)
}

/// What every generated key of a type and length looks like.
pub open spec fn well_formed_key(gen_type: GenType, length: nat, s: Seq<char>) -> bool {
    match gen_type {
        GenType::Password => {
            &&& s.len() == length
            &&& all_in(s, password_chars())
            &&& length >= 4 ==> some_in(s, LOWER@) && some_in(s, UPPER@) && some_in(s, DIGITS@) && some_in(s, SYMBOLS@)
        },
        GenType::Pin => s.len() == length && all_in(s, DIGITS@),
        GenType::Passphrase => exists|words: Seq<Seq<char>>|
            {
                &&& words.len() == length
                &&& forall|k: int| 0 <= k < words.len() ==> #[trigger] word_list().contains(words[k])
                &&& s == join_with_dash(words)
            } && (length == 0 ==> s.len() == 0) && (length > 0 ==> count_char(s, '-') == length - 1),
        GenType::HexKey => s.len() == 2 * length && all_in(s, HEX_CHARS@),
        GenType::Base64Key => {
            &&& s.len() == 4 * ((length + 2) / 3)
            &&& all_in(s, BASE64_CHARS@.push('='))
            &&& spec_base64_decode(s) matches Some(bs) && bs.len() == length
        },
        GenType::WpaKey => s.len() == length && all_in(s, ASCII_PRINTABLE@),
    }
}

/// Law: `n` draws give `n` values, each below the bound (0 for a bound
/// of 0 or 1).
pub proof fn lemma_draw_indices_bound(ws: Seq<u32>, max: u32, n: nat)
    ensures
        draw_indices(ws, max, n) matches Some((idx, _)) ==> {
            &&& idx.len() == n
            &&& forall|k: int| 0 <= k < idx.len() ==> (if max <= 1 { #[trigger] idx[k] == 0 } else { idx[k] < max })
        },
    decreases n,
{
    if n > 0 {
        lemma_draw_below_bound(ws, max);
        if let Some((i, ws1)) = draw_below(ws, max) {
            lemma_draw_indices_bound(ws1, max, (n - 1) as nat);
            if let Some((rest, ws2)) = draw_indices(ws1, max, (n - 1) as nat) {
                let idx = seq![i] + rest;
                assert forall|k: int| 0 <= k < idx.len() implies (if max <= 1 { #[trigger] idx[k] == 0 } else { idx[k] < max }) by {
                    if k > 0 {
                        assert(idx[k] == rest[k - 1]);
                    }
                }
            }
        }
    }
}

/// Law: picking `n` characters from a non-empty set gives `n` characters,
/// all from the set.
pub proof fn lemma_draw_chars_well_formed(ws: Seq<u32>, cs: Seq<char>, n: nat)
    requires
        0 < cs.len() <= u32::MAX,
    ensures
        draw_chars(ws, cs, n) matches Some((s, _)) ==> s.len() == n && all_in(s, cs),
{
    lemma_draw_indices_bound(ws, cs.len() as u32, n);
    if let Some((idx, _)) = draw_indices(ws, cs.len() as u32, n) {
        let s = chars_at(cs, idx);
        assert forall|k: int| 0 <= k < s.len() implies #[trigger] cs.contains(s[k]) by {
            assert(idx[k] < cs.len());
            assert(cs[idx[k] as int] == s[k]);
        }
    }
}

/// Law: a drawn character is one of the set.
pub proof fn lemma_draw_char_in(ws: Seq<u32>, cs: Seq<char>)
    requires
        0 < cs.len() <= u32::MAX,
    ensures
        draw_char(ws, cs) matches Some((c, _)) ==> cs.contains(c),
{
    lemma_draw_below_bound(ws, cs.len() as u32);
}

/// Law: a password has the requested length, uses only password
/// characters and, from four characters on, holds at least one lower-case
/// letter, one upper-case letter, one digit and one symbol.
pub proof fn lemma_password_well_formed(ws: Seq<u32>, length: nat)
    ensures
        draw_password(ws, length) matches Some((s, _)) ==> well_formed_key(GenType::Password, length, s),
{
    let pc = password_chars();
    assert(pc.len() == 88);
    if length >= 4 {
        lemma_draw_char_in(ws, LOWER@);
        if let Some((a, w1)) = draw_char(ws, LOWER@) {
            lemma_draw_char_in(w1, UPPER@);
            if let Some((b, w2)) = draw_char(w1, UPPER@) {
                lemma_draw_char_in(w2, DIGITS@);
                if let Some((c, w3)) = draw_char(w2, DIGITS@) {
                    lemma_draw_char_in(w3, SYMBOLS@);
                    if let Some((d, w4)) = draw_char(w3, SYMBOLS@) {
                        lemma_draw_chars_well_formed(w4, pc, (length - 4) as nat);
                        if let Some((rest, w5)) = draw_chars(w4, pc, (length - 4) as nat) {
                            let t = seq![a, b, c, d] + rest;
                            lemma_shuffle_permutes(t, w5);
                            if let Some((s, _)) = draw_shuffle(t, w5) {
                                assert(t.len() == length);
                                assert(s.to_multiset() == t.to_multiset());
                                vstd::seq_lib::to_multiset_len(s);
                                vstd::seq_lib::to_multiset_len(t);
                                assert(s.len() == length);
                                assert forall|x: char| LOWER@.contains(x) implies pc.contains(x) by {
                                    let k = choose|k: int| 0 <= k < LOWER@.len() && LOWER@[k] == x;
                                    assert(pc[k] == x);
                                }
                                assert forall|x: char| UPPER@.contains(x) implies pc.contains(x) by {
                                    let k = choose|k: int| 0 <= k < UPPER@.len() && UPPER@[k] == x;
                                    assert(pc[26 + k] == x);
                                }
                                assert forall|x: char| DIGITS@.contains(x) implies pc.contains(x) by {
                                    let k = choose|k: int| 0 <= k < DIGITS@.len() && DIGITS@[k] == x;
                                    assert(pc[52 + k] == x);
                                }
                                assert forall|x: char| SYMBOLS@.contains(x) implies pc.contains(x) by {
                                    let k = choose|k: int| 0 <= k < SYMBOLS@.len() && SYMBOLS@[k] == x;
                                    assert(pc[62 + k] == x);
                                }
                                assert forall|k: int| 0 <= k < s.len() implies #[trigger] pc.contains(s[k]) by {
                                    assert(s.contains(s[k]));
                                    vstd::seq_lib::to_multiset_contains(s, s[k]);
                                    vstd::seq_lib::to_multiset_contains(t, s[k]);
                                    assert(t.contains(s[k]));
                                    let m = choose|m: int| 0 <= m < t.len() && t[m] == s[k];
                                    if m >= 4 {
                                        assert(rest[m - 4] == s[k]);
                                    }
                                }
                                assert(t[0] == a && t[1] == b && t[2] == c && t[3] == d);
                                assert(t.contains(a) && t.contains(b) && t.contains(c) && t.contains(d));
                                vstd::seq_lib::to_multiset_contains(s, a);
                                vstd::seq_lib::to_multiset_contains(t, a);
                                vstd::seq_lib::to_multiset_contains(s, b);
                                vstd::seq_lib::to_multiset_contains(t, b);
                                vstd::seq_lib::to_multiset_contains(s, c);
                                vstd::seq_lib::to_multiset_contains(t, c);
                                vstd::seq_lib::to_multiset_contains(s, d);
                                vstd::seq_lib::to_multiset_contains(t, d);
                                assert(s.contains(a) && s.contains(b) && s.contains(c) && s.contains(d));
                                let ka = choose|k: int| 0 <= k < s.len() && s[k] == a;
                                assert(LOWER@.contains(s[ka]));
                                let kb = choose|k: int| 0 <= k < s.len() && s[k] == b;
                                assert(UPPER@.contains(s[kb]));
                                let kc = choose|k: int| 0 <= k < s.len() && s[k] == c;
                                assert(DIGITS@.contains(s[kc]));
                                let kd = choose|k: int| 0 <= k < s.len() && s[k] == d;
                                assert(SYMBOLS@.contains(s[kd]));
                            }
                        }
                    }
                }
            }
        }
    } else {
        lemma_draw_chars_well_formed(ws, pc, length);
    }
}

/// Law: a passphrase is `n` words of the list joined with `-`.
pub proof fn lemma_passphrase_well_formed(ws: Seq<u32>, n: nat)
    ensures
        draw_passphrase(ws, n) matches Some((s, _)) ==> well_formed_key(GenType::Passphrase, n, s),
{
    let max = WORDS@.len() as u32;
    lemma_draw_indices_bound(ws, max, n);
    lemma_passphrase_word_count(ws, n);
    if let Some((idx, _)) = draw_indices(ws, max, n) {
        let words = words_at(idx);
        assert forall|k: int| 0 <= k < words.len() implies #[trigger] word_list().contains(words[k]) by {
            assert(idx[k] < WORDS@.len());
            assert(word_list()[idx[k] as int] == words[k]);
        }
    }
}

/// How often `c` occurs in `s`.
pub open spec fn count_char(s: Seq<char>, c: char) -> nat
    decreases s.len(),
{
    if s.len() == 0 {
        0
    } else {
        count_char(s.drop_last(), c) + if s.last() == c { 1nat } else { 0nat }
    }
}

proof fn lemma_count_concat(a: Seq<char>, b: Seq<char>, c: char)
    ensures
        count_char(a + b, c) == count_char(a, c) + count_char(b, c),
    decreases b.len(),
{
    if b.len() > 0 {
        assert((a + b).drop_last() =~= a + b.drop_last());
        lemma_count_concat(a, b.drop_last(), c);
    } else {
        assert(a + b =~= a);
    }
}

proof fn lemma_count_absent(s: Seq<char>, c: char)
    requires
        !s.contains(c),
    ensures
        count_char(s, c) == 0,
    decreases s.len(),
{
    if s.len() > 0 {
        assert(s.drop_last().contains(c) ==> s.contains(c));
        assert(s[s.len() - 1] == s.last());
        lemma_count_absent(s.drop_last(), c);
    }
}

/// No word of the list contains `-`.
pub proof fn lemma_words_have_no_dash()
    ensures
        forall|i: int| 0 <= i < WORDS@.len() ==> !(#[trigger] WORDS@[i])@.contains('-'),
{
    reveal_strlit("about"); reveal_strlit("above"); reveal_strlit("acid"); reveal_strlit("aged"); reveal_strlit("also"); reveal_strlit("area");
    reveal_strlit("army"); reveal_strlit("away"); reveal_strlit("baby"); reveal_strlit("back"); reveal_strlit("ball"); reveal_strlit("band");
    reveal_strlit("bank"); reveal_strlit("base"); reveal_strlit("bath"); reveal_strlit("bean"); reveal_strlit("bear"); reveal_strlit("beat");
    reveal_strlit("been"); reveal_strlit("bell"); reveal_strlit("belt"); reveal_strlit("best"); reveal_strlit("bill"); reveal_strlit("bird");
    reveal_strlit("bite"); reveal_strlit("blow"); reveal_strlit("blue"); reveal_strlit("boat"); reveal_strlit("body"); reveal_strlit("bolt");
    reveal_strlit("bomb"); reveal_strlit("bond"); reveal_strlit("bone"); reveal_strlit("book"); reveal_strlit("born"); reveal_strlit("boss");
    reveal_strlit("both"); reveal_strlit("bowl"); reveal_strlit("bulk"); reveal_strlit("burn"); reveal_strlit("cake"); reveal_strlit("call");
    reveal_strlit("calm"); reveal_strlit("came"); reveal_strlit("camp"); reveal_strlit("card"); reveal_strlit("care"); reveal_strlit("case");
    reveal_strlit("cash"); reveal_strlit("cast"); reveal_strlit("cell"); reveal_strlit("chat"); reveal_strlit("chip"); reveal_strlit("city");
    reveal_strlit("clay"); reveal_strlit("club"); reveal_strlit("coal"); reveal_strlit("coat"); reveal_strlit("code"); reveal_strlit("coin");
    reveal_strlit("cold"); reveal_strlit("come"); reveal_strlit("cook"); reveal_strlit("cool"); reveal_strlit("cope"); reveal_strlit("copy");
    reveal_strlit("core"); reveal_strlit("cost"); reveal_strlit("crew"); reveal_strlit("crop"); reveal_strlit("crow"); reveal_strlit("cure");
    reveal_strlit("dark"); reveal_strlit("data"); reveal_strlit("date"); reveal_strlit("dawn"); reveal_strlit("dead"); reveal_strlit("deal");
    reveal_strlit("dear"); reveal_strlit("debt"); reveal_strlit("deep"); reveal_strlit("deny"); reveal_strlit("desk"); reveal_strlit("dial");
    reveal_strlit("diet"); reveal_strlit("dirt"); reveal_strlit("dish"); reveal_strlit("disk"); reveal_strlit("dock"); reveal_strlit("does");
    reveal_strlit("dome"); reveal_strlit("done"); reveal_strlit("door"); reveal_strlit("dose"); reveal_strlit("down"); reveal_strlit("draw");
    reveal_strlit("drew"); reveal_strlit("drop"); reveal_strlit("drum"); reveal_strlit("dual"); reveal_strlit("duke"); reveal_strlit("dump");
    reveal_strlit("dust"); reveal_strlit("duty"); reveal_strlit("each"); reveal_strlit("earn"); reveal_strlit("ease"); reveal_strlit("east");
    reveal_strlit("edge"); reveal_strlit("else"); reveal_strlit("even"); reveal_strlit("ever"); reveal_strlit("exam"); reveal_strlit("evil");
    reveal_strlit("exit"); reveal_strlit("face"); reveal_strlit("fact"); reveal_strlit("fail"); reveal_strlit("fair"); reveal_strlit("fall");
    reveal_strlit("fame"); reveal_strlit("farm"); reveal_strlit("fast"); reveal_strlit("fate"); reveal_strlit("fear"); reveal_strlit("feed");
    reveal_strlit("feel"); reveal_strlit("feet"); reveal_strlit("fell"); reveal_strlit("felt"); reveal_strlit("file"); reveal_strlit("fill");
    reveal_strlit("film"); reveal_strlit("find"); reveal_strlit("fine"); reveal_strlit("fire"); reveal_strlit("firm"); reveal_strlit("fish");
    reveal_strlit("fist"); reveal_strlit("five"); reveal_strlit("flag"); reveal_strlit("flat"); reveal_strlit("fled"); reveal_strlit("flew");
    reveal_strlit("flip"); reveal_strlit("flow"); reveal_strlit("fold"); reveal_strlit("folk"); reveal_strlit("food"); reveal_strlit("foot");
    reveal_strlit("ford"); reveal_strlit("form"); reveal_strlit("fort"); reveal_strlit("foul"); reveal_strlit("four"); reveal_strlit("free");
    reveal_strlit("from"); reveal_strlit("fuel"); reveal_strlit("full"); reveal_strlit("fund"); reveal_strlit("gain"); reveal_strlit("game");
    reveal_strlit("gang"); reveal_strlit("gate"); reveal_strlit("gave"); reveal_strlit("gear"); reveal_strlit("gene"); reveal_strlit("gift");
    reveal_strlit("girl"); reveal_strlit("give"); reveal_strlit("glad"); reveal_strlit("glow"); reveal_strlit("glue"); reveal_strlit("goal");
    reveal_strlit("goat"); reveal_strlit("goes"); reveal_strlit("gold"); reveal_strlit("golf"); reveal_strlit("gone"); reveal_strlit("good");
    reveal_strlit("grab"); reveal_strlit("gray"); reveal_strlit("grew"); reveal_strlit("grid"); reveal_strlit("grip"); reveal_strlit("grow");
    reveal_strlit("gulf"); reveal_strlit("guru"); reveal_strlit("hair"); reveal_strlit("half"); reveal_strlit("hall"); reveal_strlit("halt");
    reveal_strlit("hand"); reveal_strlit("hang"); reveal_strlit("hard"); reveal_strlit("harm"); reveal_strlit("hate"); reveal_strlit("have");
    reveal_strlit("head"); reveal_strlit("heal"); reveal_strlit("heap"); reveal_strlit("hear"); reveal_strlit("heat"); reveal_strlit("help");
    reveal_strlit("herb"); reveal_strlit("here"); reveal_strlit("hero"); reveal_strlit("hide"); reveal_strlit("high"); reveal_strlit("hike");
    reveal_strlit("hill"); reveal_strlit("hint"); reveal_strlit("hire"); reveal_strlit("hold"); reveal_strlit("hole"); reveal_strlit("holy");
    reveal_strlit("home"); reveal_strlit("hope"); reveal_strlit("horn"); reveal_strlit("host"); reveal_strlit("hour"); reveal_strlit("huge");
    reveal_strlit("hung"); reveal_strlit("hunt"); reveal_strlit("hurt"); reveal_strlit("idea"); reveal_strlit("inch"); reveal_strlit("into");
    reveal_strlit("iron"); reveal_strlit("item"); reveal_strlit("jack"); reveal_strlit("jail"); reveal_strlit("jazz"); reveal_strlit("jean");
    reveal_strlit("jobs"); reveal_strlit("join"); reveal_strlit("joke"); reveal_strlit("jump"); reveal_strlit("june"); reveal_strlit("jury");
    reveal_strlit("just"); reveal_strlit("keen"); reveal_strlit("keep"); reveal_strlit("kept"); reveal_strlit("kick"); reveal_strlit("kill");
    reveal_strlit("kind"); reveal_strlit("king"); reveal_strlit("knee"); reveal_strlit("knew"); reveal_strlit("knit"); reveal_strlit("knot");
    reveal_strlit("know"); reveal_strlit("lack"); reveal_strlit("laid"); reveal_strlit("lake"); reveal_strlit("lamp"); reveal_strlit("land");
    reveal_strlit("lane"); reveal_strlit("last"); reveal_strlit("late"); reveal_strlit("lawn"); reveal_strlit("lead"); reveal_strlit("leaf");
    reveal_strlit("lean"); reveal_strlit("left"); reveal_strlit("lend"); reveal_strlit("lens"); reveal_strlit("less"); reveal_strlit("lick");
    reveal_strlit("life"); reveal_strlit("lift"); reveal_strlit("like"); reveal_strlit("limb"); reveal_strlit("lime"); reveal_strlit("line");
    reveal_strlit("link"); reveal_strlit("lion"); reveal_strlit("list"); reveal_strlit("live"); reveal_strlit("load"); reveal_strlit("loan");
    reveal_strlit("lock"); reveal_strlit("logo"); reveal_strlit("long"); reveal_strlit("look"); reveal_strlit("lord"); reveal_strlit("lose");
    reveal_strlit("loss"); reveal_strlit("lost"); reveal_strlit("loud"); reveal_strlit("love"); reveal_strlit("luck"); reveal_strlit("lump");
    reveal_strlit("lung"); reveal_strlit("made"); reveal_strlit("mail"); reveal_strlit("main"); reveal_strlit("make"); reveal_strlit("male");
    reveal_strlit("mall"); reveal_strlit("many"); reveal_strlit("mark"); reveal_strlit("mask"); reveal_strlit("mass"); reveal_strlit("math");
    reveal_strlit("maze"); reveal_strlit("meal"); reveal_strlit("mean"); reveal_strlit("meat"); reveal_strlit("meet"); reveal_strlit("melt");
    reveal_strlit("menu"); reveal_strlit("mere"); reveal_strlit("mild"); reveal_strlit("mile"); reveal_strlit("milk"); reveal_strlit("mill");
    reveal_strlit("mind"); reveal_strlit("mine"); reveal_strlit("mint"); reveal_strlit("miss"); reveal_strlit("mode"); reveal_strlit("mood");
    reveal_strlit("moon"); reveal_strlit("more"); reveal_strlit("most"); reveal_strlit("move"); reveal_strlit("much"); reveal_strlit("must");
    reveal_strlit("myth"); reveal_strlit("nail"); reveal_strlit("name"); reveal_strlit("navy"); reveal_strlit("near"); reveal_strlit("neat");
    reveal_strlit("neck"); reveal_strlit("need"); reveal_strlit("nest"); reveal_strlit("news"); reveal_strlit("next"); reveal_strlit("nine");
    reveal_strlit("node"); reveal_strlit("none"); reveal_strlit("noon"); reveal_strlit("norm"); reveal_strlit("nose"); reveal_strlit("note");
    reveal_strlit("noun"); reveal_strlit("odds"); reveal_strlit("okay"); reveal_strlit("once"); reveal_strlit("only"); reveal_strlit("onto");
    reveal_strlit("open"); reveal_strlit("oral"); reveal_strlit("oven"); reveal_strlit("over"); reveal_strlit("pace"); reveal_strlit("pack");
    reveal_strlit("page"); reveal_strlit("paid"); reveal_strlit("pain"); reveal_strlit("pair"); reveal_strlit("pale"); reveal_strlit("palm");
    reveal_strlit("park"); reveal_strlit("part"); reveal_strlit("pass"); reveal_strlit("past"); reveal_strlit("path"); reveal_strlit("peak");
    reveal_strlit("peer"); reveal_strlit("pick"); reveal_strlit("pile"); reveal_strlit("pine"); reveal_strlit("pink"); reveal_strlit("pipe");
    reveal_strlit("plan"); reveal_strlit("play"); reveal_strlit("plot"); reveal_strlit("plug"); reveal_strlit("plus"); reveal_strlit("poem");
    reveal_strlit("poet"); reveal_strlit("poll"); reveal_strlit("pond"); reveal_strlit("pool"); reveal_strlit("poor"); reveal_strlit("pope");
    reveal_strlit("port"); reveal_strlit("pose"); reveal_strlit("post"); reveal_strlit("pour"); reveal_strlit("pray"); reveal_strlit("pull");
    reveal_strlit("pump"); reveal_strlit("pure"); reveal_strlit("push"); reveal_strlit("quit"); reveal_strlit("race"); reveal_strlit("rage");
    reveal_strlit("raid"); reveal_strlit("rail"); reveal_strlit("rain"); reveal_strlit("rank"); reveal_strlit("rare"); reveal_strlit("rate");
    reveal_strlit("read"); reveal_strlit("real"); reveal_strlit("rear"); reveal_strlit("rely"); reveal_strlit("rent"); reveal_strlit("rest");
    reveal_strlit("rice"); reveal_strlit("rich"); reveal_strlit("ride"); reveal_strlit("ring"); reveal_strlit("rise"); reveal_strlit("risk");
    reveal_strlit("road"); reveal_strlit("rock"); reveal_strlit("rode"); reveal_strlit("role"); reveal_strlit("roll"); reveal_strlit("roof");
    reveal_strlit("room"); reveal_strlit("root"); reveal_strlit("rope"); reveal_strlit("rose"); reveal_strlit("ruin"); reveal_strlit("rule");
    reveal_strlit("rush"); reveal_strlit("safe"); reveal_strlit("said"); reveal_strlit("sake"); reveal_strlit("sale"); reveal_strlit("salt");
    reveal_strlit("same"); reveal_strlit("sand"); reveal_strlit("sang"); reveal_strlit("save"); reveal_strlit("seal"); reveal_strlit("seat");
    reveal_strlit("seed"); reveal_strlit("seek"); reveal_strlit("seem"); reveal_strlit("seen"); reveal_strlit("self"); reveal_strlit("sell");
    reveal_strlit("send"); reveal_strlit("sent"); reveal_strlit("sept"); reveal_strlit("shed"); reveal_strlit("shin"); reveal_strlit("ship");
    reveal_strlit("shop"); reveal_strlit("shot"); reveal_strlit("show"); reveal_strlit("shut"); reveal_strlit("sick"); reveal_strlit("side");
    reveal_strlit("sign"); reveal_strlit("silk"); reveal_strlit("sing"); reveal_strlit("sink"); reveal_strlit("site"); reveal_strlit("size");
    reveal_strlit("skin"); reveal_strlit("slam"); reveal_strlit("slid"); reveal_strlit("slim"); reveal_strlit("slip"); reveal_strlit("slot");
    reveal_strlit("slow"); reveal_strlit("snap"); reveal_strlit("snow"); reveal_strlit("soap"); reveal_strlit("sock"); reveal_strlit("soft");
    reveal_strlit("soil"); reveal_strlit("sold"); reveal_strlit("sole"); reveal_strlit("some"); reveal_strlit("song"); reveal_strlit("soon");
    reveal_strlit("sort"); reveal_strlit("soul"); reveal_strlit("span"); reveal_strlit("spin"); reveal_strlit("spot"); reveal_strlit("star");
    reveal_strlit("stay"); reveal_strlit("stem"); reveal_strlit("step"); reveal_strlit("stir"); reveal_strlit("stop"); reveal_strlit("such");
    reveal_strlit("suit"); reveal_strlit("sure"); reveal_strlit("swim"); reveal_strlit("tail"); reveal_strlit("take"); reveal_strlit("tale");
    reveal_strlit("talk"); reveal_strlit("tall"); reveal_strlit("tank"); reveal_strlit("tape"); reveal_strlit("task"); reveal_strlit("taxi");
    reveal_strlit("team"); reveal_strlit("tell"); reveal_strlit("tend"); reveal_strlit("tent"); reveal_strlit("term"); reveal_strlit("test");
    reveal_strlit("text"); reveal_strlit("than"); reveal_strlit("that"); reveal_strlit("them"); reveal_strlit("then"); reveal_strlit("they");
    reveal_strlit("thin"); reveal_strlit("this"); reveal_strlit("thus"); reveal_strlit("tick"); reveal_strlit("tide"); reveal_strlit("tidy");
    reveal_strlit("tied"); reveal_strlit("tier"); reveal_strlit("tile"); reveal_strlit("till"); reveal_strlit("time"); reveal_strlit("tiny");
    reveal_strlit("tire"); reveal_strlit("toad"); reveal_strlit("told"); reveal_strlit("toll"); reveal_strlit("tone"); reveal_strlit("took");
    reveal_strlit("tool"); reveal_strlit("tops"); reveal_strlit("tore"); reveal_strlit("torn"); reveal_strlit("tour"); reveal_strlit("town");
    reveal_strlit("trap"); reveal_strlit("tree"); reveal_strlit("trim"); reveal_strlit("trip"); reveal_strlit("true"); reveal_strlit("tube");
    reveal_strlit("tuck"); reveal_strlit("tune"); reveal_strlit("turn"); reveal_strlit("twin"); reveal_strlit("type"); reveal_strlit("ugly");
    reveal_strlit("undo"); reveal_strlit("unit"); reveal_strlit("upon"); reveal_strlit("urge"); reveal_strlit("used"); reveal_strlit("user");
    reveal_strlit("vale"); reveal_strlit("vary"); reveal_strlit("vast"); reveal_strlit("verb"); reveal_strlit("very"); reveal_strlit("veto");
    reveal_strlit("vice"); reveal_strlit("view"); reveal_strlit("vine"); reveal_strlit("visa"); reveal_strlit("void"); reveal_strlit("volt");
    reveal_strlit("vote"); reveal_strlit("wade"); reveal_strlit("wage"); reveal_strlit("wait"); reveal_strlit("wake"); reveal_strlit("walk");
    reveal_strlit("wall"); reveal_strlit("want"); reveal_strlit("ward"); reveal_strlit("warm"); reveal_strlit("warn"); reveal_strlit("wash");
    reveal_strlit("vast"); reveal_strlit("wave"); reveal_strlit("weak"); reveal_strlit("wear"); reveal_strlit("weed"); reveal_strlit("week");
    reveal_strlit("well"); reveal_strlit("went"); reveal_strlit("were"); reveal_strlit("west"); reveal_strlit("what"); reveal_strlit("when");
    reveal_strlit("whom"); reveal_strlit("wide"); reveal_strlit("wife"); reveal_strlit("wild"); reveal_strlit("will"); reveal_strlit("wind");
    reveal_strlit("wine"); reveal_strlit("wing"); reveal_strlit("wire"); reveal_strlit("wise"); reveal_strlit("wish"); reveal_strlit("with");
    reveal_strlit("woke"); reveal_strlit("wolf"); reveal_strlit("wood"); reveal_strlit("wool"); reveal_strlit("word"); reveal_strlit("wore");
    reveal_strlit("work"); reveal_strlit("worm"); reveal_strlit("worn"); reveal_strlit("wrap"); reveal_strlit("writ"); reveal_strlit("yard");
    reveal_strlit("yeah"); reveal_strlit("year"); reveal_strlit("yell"); reveal_strlit("yoga"); reveal_strlit("zero"); reveal_strlit("zone");
    reveal_strlit("zoom");
}

proof fn lemma_join_dash_count(words: Seq<Seq<char>>)
    requires
        words.len() > 0,
        forall|k: int| 0 <= k < words.len() ==> !(#[trigger] words[k]).contains('-'),
    ensures
        count_char(join_with_dash(words), '-') == words.len() - 1,
    decreases words.len(),
{
    if words.len() == 1 {
        lemma_count_absent(words[0], '-');
    } else {
        let init = words.drop_last();
        assert forall|k: int| 0 <= k < init.len() implies !(#[trigger] init[k]).contains('-') by {
            assert(init[k] == words[k]);
        }
        lemma_join_dash_count(init);
        let last = words.last();
        assert(!words[words.len() - 1].contains('-'));
        lemma_count_absent(last, '-');
        lemma_count_concat(join_with_dash(init), seq!['-'], '-');
        lemma_count_concat(join_with_dash(init) + seq!['-'], last, '-');
        let dash = seq!['-'];
        assert(dash.drop_last() =~= Seq::<char>::empty());
        assert(dash.last() == '-');
        assert(count_char(Seq::<char>::empty(), '-') == 0);
        assert(count_char(dash, '-') == 1);
    }
}

/// Law: a passphrase of `n` words holds exactly `n - 1` dashes, all
/// between words (so splitting it at `-` gives the `n` words back), and is
/// empty for no words.
pub proof fn lemma_passphrase_word_count(ws: Seq<u32>, n: nat)
    ensures
        draw_passphrase(ws, n) matches Some((s, _)) ==> {
            &&& (n == 0 ==> s.len() == 0)
            &&& (n > 0 ==> count_char(s, '-') == n - 1)
        },
{
    let max = WORDS@.len() as u32;
    lemma_draw_indices_bound(ws, max, n);
    if let Some((idx, _)) = draw_indices(ws, max, n) {
        let words = words_at(idx);
        lemma_words_have_no_dash();
        assert forall|k: int| 0 <= k < words.len() implies !(#[trigger] words[k]).contains('-') by {
            assert(idx[k] < WORDS@.len());
            assert(words[k] == WORDS@[idx[k] as int]@);
        }
        if n > 0 {
            lemma_join_dash_count(words);
        }
    }
}

/// Law: when every word is accepted, `n` draws below `max` are the words
/// reduced modulo `max`, one word each, in order.
pub proof fn lemma_draw_indices_direct(ws: Seq<u32>, max: u32, n: nat)
    requires
        max > 1,
        n <= ws.len(),
        forall|k: int| 0 <= k < n ==> #[trigger] ws[k] < range_threshold(max),
    ensures
        draw_indices(ws, max, n) == Some((Seq::new(n, |k: int| (ws[k] % max) as u32), ws.skip(n as int))),
    decreases n,
{
    if n == 0 {
        assert(Seq::new(0, |k: int| (ws[k] % max) as u32) =~= Seq::<u32>::empty());
        assert(ws.skip(0) =~= ws);
    } else {
        assert(ws[0] < range_threshold(max));
        let ws1 = ws.drop_first();
        assert forall|k: int| 0 <= k < n - 1 implies #[trigger] ws1[k] < range_threshold(max) by {
            assert(ws1[k] == ws[k + 1]);
        }
        lemma_draw_indices_direct(ws1, max, (n - 1) as nat);
        let rest = Seq::new((n - 1) as nat, |k: int| (ws1[k] % max) as u32);
        assert(seq![(ws[0] % max) as u32] + rest =~= Seq::new(n, |k: int| (ws[k] % max) as u32));
        assert(ws1.skip(n - 1) =~= ws.skip(n as int));
    }
}

/// Law: when every word is accepted, `n` characters picked from `cs` are
/// `cs[w % |cs|]` for the words `w`, in order.
pub proof fn lemma_draw_chars_direct(ws: Seq<u32>, cs: Seq<char>, n: nat)
    requires
        1 < cs.len() <= u32::MAX,
        n <= ws.len(),
        forall|k: int| 0 <= k < n ==> #[trigger] ws[k] < range_threshold(cs.len() as u32),
    ensures
        draw_chars(ws, cs, n) == Some((Seq::new(n, |k: int| cs[ws[k] as int % cs.len() as int]), ws.skip(n as int))),
{
    let max = cs.len() as u32;
    assert(max as int == cs.len());
    lemma_draw_indices_direct(ws, max, n);
    let idx = Seq::new(n, |k: int| (ws[k] % max) as u32);
    assert(chars_at(cs, idx) =~= Seq::new(n, |k: int| cs[ws[k] as int % cs.len() as int]));
}

/// Law: a PIN is one decimal digit per word, the word's value modulo 10,
/// when every word is accepted (below 4294967290); it takes `n` words.
pub proof fn lemma_pin_digits(ws: Seq<u32>, n: nat)
    requires
        n <= ws.len(),
        forall|k: int| 0 <= k < n ==> #[trigger] ws[k] < 4294967290u32,
    ensures
        draw_key(ws, GenType::Pin, n) matches Some((s, rest)) && rest == ws.skip(n as int) && s.len() == n
            && forall|k: int| 0 <= k < n ==> #[trigger] s[k] as int == '0' as int + ws[k] as int % 10,
{
    assert(range_threshold(10) == 4294967290);
    lemma_draw_chars_direct(ws, DIGITS@, n);
    assert(forall|d: int| 0 <= d < 10 ==> #[trigger] DIGITS@[d] as int == '0' as int + d);
}

/// Law: a WPA key character is `ASCII_PRINTABLE[w % 76]` of its word when
/// every word is accepted (below 4294967252).
pub proof fn lemma_wpa_key_chars(ws: Seq<u32>, n: nat)
    requires
        n <= ws.len(),
        forall|k: int| 0 <= k < n ==> #[trigger] ws[k] < 4294967252u32,
    ensures
        draw_key(ws, GenType::WpaKey, n) == Some((Seq::new(n, |k: int| ASCII_PRINTABLE@[ws[k] as int % 76]), ws.skip(n as int))),
{
    assert(range_threshold(76) == 4294967252);
    lemma_draw_chars_direct(ws, ASCII_PRINTABLE@, n);
}

/// Law: each passphrase word is the list word at the word's value modulo
/// the full list length 631, when every word is accepted (below
/// 4294967124), so every word of the list can occur.
pub proof fn lemma_passphrase_words(ws: Seq<u32>, n: nat)
    requires
        n <= ws.len(),
        forall|k: int| 0 <= k < n ==> #[trigger] ws[k] < 4294967124u32,
    ensures
        draw_key(ws, GenType::Passphrase, n) == Some((
            join_with_dash(Seq::new(n, |k: int| WORDS@[ws[k] as int % 631]@)),
            ws.skip(n as int),
        )),
{
    assert(range_threshold(631) == 4294967124);
    lemma_draw_indices_direct(ws, 631, n);
    let idx = Seq::new(n, |k: int| (ws[k] % 631) as u32);
    assert(words_at(idx) =~= Seq::new(n, |k: int| WORDS@[ws[k] as int % 631]@));
}

/// Law: a password of four or more characters holds, in some order, one
/// lower-case letter, one upper-case letter, one digit and one symbol
/// picked by the first four words, and one character of the whole
/// 88-character set `a-z A-Z 0-9` and symbols per further word (the word
/// modulo 88), when these words are accepted.
pub proof fn lemma_password_chars_from_words(ws: Seq<u32>, length: nat)
    requires
        length >= 4,
        length <= ws.len(),
        ws[0] < 4294967274u32,
        ws[1] < 4294967274u32,
        ws[2] < 4294967290u32,
        ws[3] < 4294967274u32,
        forall|k: int| 4 <= k < length ==> #[trigger] ws[k] < 4294967248u32,
    ensures
        draw_key(ws, GenType::Password, length) matches Some((s, _)) ==> s.to_multiset() == (seq![
            LOWER@[ws[0] as int % 26],
            UPPER@[ws[1] as int % 26],
            DIGITS@[ws[2] as int % 10],
            SYMBOLS@[ws[3] as int % 26],
        ] + Seq::new((length - 4) as nat, |k: int| (LOWER@ + UPPER@ + DIGITS@ + SYMBOLS@)[ws[k + 4] as int % 88])).to_multiset(),
{
    assert(range_threshold(26) == 4294967274);
    assert(range_threshold(10) == 4294967290);
    assert(range_threshold(88) == 4294967248);
    let w4 = ws.skip(4);
    assert forall|k: int| 0 <= k < length - 4 implies #[trigger] w4[k] < range_threshold(88) by {
        assert(w4[k] == ws[k + 4]);
    }
    assert(ws.drop_first().drop_first().drop_first().drop_first() =~= w4);
    lemma_draw_chars_direct(w4, password_chars(), (length - 4) as nat);
    let fill = Seq::new((length - 4) as nat, |k: int| password_chars()[w4[k] as int % 88]);
    assert(fill =~= Seq::new((length - 4) as nat, |k: int| (LOWER@ + UPPER@ + DIGITS@ + SYMBOLS@)[ws[k + 4] as int % 88]));
    let t = seq![
        LOWER@[ws[0] as int % 26],
        UPPER@[ws[1] as int % 26],
        DIGITS@[ws[2] as int % 10],
        SYMBOLS@[ws[3] as int % 26],
    ] + fill;
    lemma_shuffle_permutes(t, w4.skip((length - 4) as int));
}

/// Law: a hex key of `n` bytes holds, for byte `k` of the supply (read as
/// little-endian words), its high and low nibble as upper-case hex digits
/// at positions `2k` and `2k + 1`; it takes `ceil(n / 4)` words.
pub proof fn lemma_hex_key_digits(ws: Seq<u32>, n: nat)
    requires
        ws.len() >= (n + 3) / 4,
    ensures
        draw_key(ws, GenType::HexKey, n) matches Some((s, rest)) && rest == ws.skip(((n + 3) / 4) as int) && s.len() == 2 * n
            && forall|k: int| 0 <= k < n ==> {
                &&& #[trigger] s[2 * k] as int == hex_digit_code(word_byte(ws, k) as int / 16)
                &&& s[2 * k + 1] as int == hex_digit_code(word_byte(ws, k) as int % 16)
            },
{
    lemma_draw_bytes_direct(ws, n);
    let bs = Seq::new(n, |k: int| word_byte(ws, k));
    lemma_hex_digits(bs);
    let s = spec_hex(bs);
    assert forall|k: int| 0 <= k < n implies {
        &&& #[trigger] s[2 * k] as int == hex_digit_code(word_byte(ws, k) as int / 16)
        &&& s[2 * k + 1] as int == hex_digit_code(word_byte(ws, k) as int % 16)
    } by {
        assert(bs[k] == word_byte(ws, k));
    }
}

/// Law: a base64 key of `n` bytes decodes (strictly) to exactly the first
/// `n` bytes of the supply read as little-endian words; it takes
/// `ceil(n / 4)` words.
pub proof fn lemma_base64_key_bytes(ws: Seq<u32>, n: nat)
    requires
        ws.len() >= (n + 3) / 4,
    ensures
        draw_key(ws, GenType::Base64Key, n) matches Some((s, rest)) && rest == ws.skip(((n + 3) / 4) as int)
            && spec_base64_decode(s) == Some(Seq::new(n, |k: int| word_byte(ws, k))),
{
    lemma_draw_bytes_direct(ws, n);
    lemma_base64_round_trip(Seq::new(n, |k: int| word_byte(ws, k)));
}

/// Law: every key `generate` can produce has the shape its type promises:
/// the requested number of characters (twice the bytes in hex, four per
/// started group of three bytes in base64), drawn from the type's
/// character set; passwords of four or more characters hold every
/// character class; passphrases are list words joined with `-`.
pub proof fn lemma_generated_keys_well_formed(ws: Seq<u32>, gen_type: GenType, length: nat)
    ensures
        draw_key(ws, gen_type, length) matches Some((s, _)) ==> well_formed_key(gen_type, length, s),
{
    match gen_type {
        GenType::Password => lemma_password_well_formed(ws, length),
        GenType::Pin => lemma_draw_chars_well_formed(ws, DIGITS@, length),
        GenType::Passphrase => {
            lemma_passphrase_well_formed(ws, length);
            lemma_passphrase_word_count(ws, length);
        },
        GenType::HexKey => {
            lemma_draw_bytes_len(ws, length);
            if let Some((bs, _)) = draw_bytes(ws, length) {
                lemma_hex_well_formed(bs);
            }
        },
        GenType::Base64Key => {
            lemma_draw_bytes_len(ws, length);
            if let Some((bs, _)) = draw_bytes(ws, length) {
                lemma_base64_well_formed(bs);
                lemma_base64_round_trip(bs);
            }
        },
        GenType::WpaKey => lemma_draw_chars_well_formed(ws, ASCII_PRINTABLE@, length),
    }
}

/// `n` characters picked from `cs`, collected in a vector.
fn draw_char_vec(rng: &mut Rng, cs: &[char], n: usize) -> (r: Option<Vec<char>>)
    requires
        cs@.len() > 0,
    ensures
        match draw_chars(old(rng).remaining(), cs@, n as nat) {
            Some((s, rest)) => r matches Some(v) && v@ == s && final(rng).remaining() == rest,
            None => r is None && final(rng).remaining().len() == 0,
        },
{
    let mut out: Vec<char> = Vec::new();
    let ghost max = cs@.len() as u32;
    let ghost mut done: Seq<u32> = Seq::empty();
    let mut k: usize = 0;
    while k < n
        invariant
            k <= n,
            cs@.len() > 0,
            max == cs@.len() as u32,
            out@ == chars_at(cs@, done),
            match draw_indices(rng.remaining(), max, (n - k) as nat) {
                Some((idx, rest)) => draw_indices(old(rng).remaining(), max, n as nat) == Some(
                    (done + idx, rest),
                ),
                None => draw_indices(old(rng).remaining(), max, n as nat) is None,
            },
        decreases n - k,
    {
        let ghost pre = rng.remaining();
        let c = *rng.pick(cs)?;
        proof {
            let i = draw_below(pre, max).unwrap().0;
            assert(draw_indices(pre, max, (n - k) as nat) == match draw_indices(rng.remaining(), max, (n - k - 1) as nat) {
                Some((rest, ws2)) => Some((seq![i] + rest, ws2)),
                None => None,
            });
            match draw_indices(rng.remaining(), max, (n - k - 1) as nat) {
                Some((idx, rest)) => {
                    assert(done + (seq![i] + idx) =~= done.push(i) + idx);
                },
                None => {},
            }
            done = done.push(i);
        }
        out.push(c);
        assert(out@ =~= chars_at(cs@, done));
        k = k + 1;
    }
    Some(out)
}

/// The characters of `cs` as a string.
fn string_of(cs: &Vec<char>) -> (r: String)
    ensures
        r@ == cs@,
{
    let mut s = String::new();
    let mut i: usize = 0;
    while i < cs.len()
        invariant
            i <= cs@.len(),
            s@ == cs@.take(i as int),
        decreases cs@.len() - i,
    {
        push_char(&mut s, cs[i]);
        assert(cs@.take(i + 1) =~= cs@.take(i as int).push(cs@[i as int]));
        i = i + 1;
    }
    assert(cs@.take(cs@.len() as int) =~= cs@);
    s
}

/// Appends the characters of `cs` to `v`.
fn extend_chars(v: &mut Vec<char>, cs: &[char])
    ensures
        final(v)@ == old(v)@ + cs@,
{
    let mut i: usize = 0;
    while i < cs.len()
        invariant
            i <= cs@.len(),
            v@ == old(v)@ + cs@.take(i as int),
        decreases cs@.len() - i,
    {
        v.push(cs[i]);
        assert(cs@.take(i + 1) =~= cs@.take(i as int).push(cs@[i as int]));
        i = i + 1;
    }
    assert(cs@.take(cs@.len() as int) =~= cs@);
}

/// Generates a random password of `length` characters. From four
/// characters on it holds at least one lower-case letter, one upper-case
/// letter, one digit and one symbol, in random positions.
pub fn gen_password(rng: &mut Rng, length: usize) -> (r: Option<String>)
    ensures
        drawn(r, draw_password(old(rng).remaining(), length as nat), final(rng).remaining()),
{
    let mut charset: Vec<char> = Vec::new();
    extend_chars(&mut charset, LOWER.as_slice());
    extend_chars(&mut charset, UPPER.as_slice());
    extend_chars(&mut charset, DIGITS.as_slice());
    extend_chars(&mut charset, SYMBOLS.as_slice());
    assert(charset@ == password_chars());
    if length >= 4 {
        let mut chars: Vec<char> = Vec::new();
        chars.push(*rng.pick(LOWER.as_slice())?);
        chars.push(*rng.pick(UPPER.as_slice())?);
        chars.push(*rng.pick(DIGITS.as_slice())?);
        chars.push(*rng.pick(SYMBOLS.as_slice())?);
        let rest = draw_char_vec(rng, charset.as_slice(), length - 4)?;
        extend_chars(&mut chars, rest.as_slice());
        assert(chars@ =~= seq![chars@[0], chars@[1], chars@[2], chars@[3]] + rest@);
        if !rng.shuffle(chars.as_mut_slice()) {
            return None;
        }
        Some(string_of(&chars))
    } else {
        let chars = draw_char_vec(rng, charset.as_slice(), length)?;
        Some(string_of(&chars))
    }
}

/// Generates a random PIN of `length` digits.
pub fn gen_pin(rng: &mut Rng, length: usize) -> (r: Option<String>)
    ensures
        drawn(r, draw_chars(old(rng).remaining(), DIGITS@, length as nat), final(rng).remaining()),
{
    let chars = draw_char_vec(rng, DIGITS.as_slice(), length)?;
    Some(string_of(&chars))
}

/// Generates a WPA key of `length` printable characters.
pub fn gen_wpa_key(rng: &mut Rng, length: usize) -> (r: Option<String>)
    ensures
        drawn(r, draw_chars(old(rng).remaining(), ASCII_PRINTABLE@, length as nat), final(rng).remaining()),
{
    let chars = draw_char_vec(rng, ASCII_PRINTABLE.as_slice(), length)?;
    Some(string_of(&chars))
}

/// Generates a Diceware-style passphrase: `word_count` words from the list,
/// joined with `-`.
pub fn gen_passphrase(rng: &mut Rng, word_count: usize) -> (r: Option<String>)
    ensures
        drawn(r, draw_passphrase(old(rng).remaining(), word_count as nat), final(rng).remaining()),
{
    let mut words: Vec<&str> = Vec::new();
    let ghost max = WORDS@.len() as u32;
    let ghost mut done: Seq<u32> = Seq::empty();
    let mut k: usize = 0;
    while k < word_count
        invariant
            k <= word_count,
            max == WORDS@.len() as u32,
            words@.len() == done.len(),
            forall|j: int| 0 <= j < done.len() ==> #[trigger] done[j] < WORDS@.len(),
            forall|j: int| 0 <= j < done.len() ==> #[trigger] words@[j] == WORDS@[done[j] as int],
            match draw_indices(rng.remaining(), max, (word_count - k) as nat) {
                Some((idx, rest)) => draw_indices(old(rng).remaining(), max, word_count as nat) == Some(
                    (done + idx, rest),
                ),
                None => draw_indices(old(rng).remaining(), max, word_count as nat) is None,
            },
        decreases word_count - k,
    {
        let ghost pre = rng.remaining();
        let ghost old_done = done;
        let ghost old_words = words@;
        let list = WORDS.as_slice();
        assert(list@ == WORDS@);
        let w: &str = *rng.pick(list)?;
        proof {
            let i = draw_below(pre, max).unwrap().0;
            assert(i < WORDS@.len() && w == WORDS@[i as int]);
            match draw_indices(rng.remaining(), max, (word_count - k - 1) as nat) {
                Some((idx, rest)) => {
                    assert(done + (seq![i] + idx) =~= done.push(i) + idx);
                },
                None => {},
            }
            done = done.push(i);
        }
        words.push(w);
        assert forall|j: int| 0 <= j < done.len() implies #[trigger] done[j] < WORDS@.len() && words@[j] == WORDS@[done[j] as int] by {
            if j < old_done.len() {
                assert(done[j] == old_done[j]);
                assert(words@[j] == old_words[j]);
            } else {
                assert(words@[j] == w);
            }
        }
        k = k + 1;
    }
    let ghost views = words_at(done);
    assert(forall|j: int| 0 <= j < words@.len() ==> #[trigger] views[j] == words@[j]@);
    let mut result = String::new();
    let mut i: usize = 0;
    while i < words.len()
        invariant
            i <= words@.len(),
            views.len() == words@.len(),
            forall|j: int| 0 <= j < words@.len() ==> #[trigger] views[j] == words@[j]@,
            result@ == join_with_dash(views.take(i as int)),
        decreases words@.len() - i,
    {
        if i > 0 {
            push_char(&mut result, '-');
        }
        result.append(words[i]);
        assert(views.take(i + 1).drop_last() =~= views.take(i as int));
        i = i + 1;
    }
    assert(views.take(words@.len() as int) =~= views);
    Some(result)
}

/// Generates `byte_count` random bytes, written in upper-case hex.
pub fn gen_hex_key(rng: &mut Rng, byte_count: usize) -> (r: Option<String>)
    ensures
        drawn(r, draw_hex_key(old(rng).remaining(), byte_count as nat), final(rng).remaining()),
{
    let bytes = rng.bytes(byte_count)?;
    Some(hex_encode(bytes.as_slice()))
}

/// Generates `byte_count` random bytes, written in padded base64.
pub fn gen_base64_key(rng: &mut Rng, byte_count: usize) -> (r: Option<String>)
    ensures
        drawn(r, draw_base64_key(old(rng).remaining(), byte_count as nat), final(rng).remaining()),
{
    let bytes = rng.bytes(byte_count)?;
    Some(base64_encode(bytes.as_slice()))
}

/// Generates a key of the given type; `length` counts characters, words
/// or bytes as the type's unit says.
pub fn generate(rng: &mut Rng, gen_type: GenType, length: usize) -> (r: Option<String>)
    ensures
        drawn(r, draw_key(old(rng).remaining(), gen_type, length as nat), final(rng).remaining()),
{
    match gen_type {
        GenType::Password => gen_password(rng, length),
        GenType::Pin => gen_pin(rng, length),
        GenType::Passphrase => gen_passphrase(rng, length),
        GenType::HexKey => gen_hex_key(rng, length),
        GenType::Base64Key => gen_base64_key(rng, length),
        GenType::WpaKey => gen_wpa_key(rng, length),
    }
}

} // verus!
