//! Minimal pairs of Vietnamese words: segmenting syllables into initial
//! consonant, vowel nucleus and final consonant, comparing words feature
//! by feature, and selecting the pairs that differ on exactly one feature.
pub mod delta;
pub mod entry;
pub mod filter;
pub mod pairs;
pub mod runs;
pub mod syllable;
pub mod text;
pub mod vowels;

pub use delta::{parse_kind, Delta, DeltaKind, WordDelta};
pub use entry::{check_line, load_entries, Entry, LineError};
pub use filter::{filter, Options};
pub use pairs::{find_minimal_pairs, minimal_pairs, pair_delta};
pub use syllable::Syllable;
pub use vowels::{is_vowel, normalize_vowel, parse_tone, Tone, Vowel};
