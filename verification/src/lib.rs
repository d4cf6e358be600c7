//! Transforms for a tabular dataset of airline reviews: natural-language
//! date normalization, quote-stripping text sanitization, and lexicon-based
//! sentiment scoring. Reading rows, writing rows and fetching the lexicon
//! are left to the caller; everything here is pure computation.

pub mod dates;
pub mod lexicon;
pub mod numbers;
pub mod sanitize;
pub mod scoring;
pub mod text;

pub use dates::{
    CalendarDate, DateError, RawMonth, convert_date, lemma_normalize_date_formatted,
    normalize_date, parse_day_str, parse_year_str, split_date,
};
pub use lexicon::{Lexicon, parse_string_to_hashmap};
pub use numbers::{parse_i32_str, parse_i8_str, parse_u32_str};
pub use sanitize::{lemma_trim_extra_quotes_idempotent, trim_extra_quotes};
pub use scoring::{check_sentiment, split_review_str};
