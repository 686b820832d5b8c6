//! Romaja-to-Hangul transliteration.
//!
//! The crate converts an ASCII Latin transliteration ("romaja") of Korean
//! into composed Hangul syllable block characters.  The consonant
//! alphabet is `g G n d D r/l m b B s S x j J ch k t p h`; the vowel
//! alphabet is `a ae ya yae eo e yeo ye o wa wae oe yo u weo we wi yu y
//! yi i`, matched greedily so that a longer token always wins.  `x`
//! stands for the ieung consonant, which keeps parsing unambiguous
//! (`hangyl` becomes 한글 and never 항을).
//!
//! Aside from those conversions, the following rules hold:
//!
//! - an initial vowel does not need an explicit ieung: `arayo` is 아라요;
//! - a vowel directly after a committed vowel starts a new syllable and
//!   does not need one either, though `x` may separate them: `rexonSi`
//!   is 레온씨;
//! - a trailing consonant followed by a vowel opens the next syllable
//!   (resyllabification), a compound final splitting into its two
//!   components: `ilgo` is 일고;
//! - in the lossy entry points ([`deromanize`], [`deromanize_into`],
//!   [`deromanize_escaped`]) an initial that never receives a vowel is
//!   emitted as a standalone letter (`kkk` is ㅋㅋㅋ) and anything
//!   outside the alphabet is copied through; the validating entry points
//!   in [`strict`] report such input as an error with its character
//!   offset instead;
//! - text inside square brackets is copied through untouched by
//!   [`deromanize_escaped`]: `annyeox ha[se]yo` is 안녕 하se요.

pub mod engine;
pub mod hangeul;
pub mod history;
pub mod scan;
pub mod strict;

pub use engine::deromanize;
pub use engine::deromanize_escaped;
pub use engine::deromanize_into;
pub use hangeul::Block;
pub use hangeul::Final;
pub use hangeul::Initial;
pub use hangeul::Vowel;
pub use history::History;
pub use scan::read_final;
pub use scan::read_initial;
pub use scan::read_vowel;
pub use strict::DeromanizeError;
