//! Building blocks of a two-party encrypted chat: a Diffie-Hellman style key
//! agreement over a fixed 64-bit modulus, a keystream cipher driven by a linear
//! congruential generator, and length-prefixed framing of the ciphertext.
//!
//! Every function carries a contract over a mathematical model of its data, and
//! the laws that make two peers agree (equal shared secrets, equal keystreams,
//! lossless framing) are stated as proof functions next to the code they are about.

pub mod cipher;
pub mod endian;
pub mod exchange;
pub mod frame;
pub mod hexfmt;
pub mod modular;
pub mod session;
pub mod text;
