//! Versioned DNA encoding for game-asset avatars, and the forge algorithms that
//! combine a leader avatar with sacrificed avatars.

pub mod assemble;
pub mod avatar;
pub mod codec;
pub mod combinator;
pub mod dna;
pub mod match_forge;
pub mod match_phase;
pub mod hash_provider;
pub mod mapper;
pub mod matching;
pub mod progress;

pub use avatar::{Avatar, DnaEncoding, LogicGeneration, MaxIpfsUrl, SeasonId, SoulCount};
pub use dna::{dna_bytes, Dna};
pub use codec::{
    clear_subtype, decode_field, encode_field, has_subtype, read_at, set_subtype, subtypes_of,
    write_at, ByteType, DnaField, EncodingError, DNA_LEN, PROGRESS_LEN,
};
pub use hash_provider::{shuffle, stream_byte, HashProvider, HASH_LEN};
pub use progress::{lowest_progress_byte, lowest_progress_indexes, read_progress, write_progress};
pub use matching::{is_progress_match, MATCH_SCORE, PROGRESS_VARIATIONS};
pub use combinator::{
    AvatarCombinator, AvatarId, ForgeError, ForgeItem, ForgeOutput, ForgeType, LeaderForgeOutput,
};
pub use mapper::{AttributeMapperV1, AttributeMapperV2, AttributeMapperV3, RarityTier};
