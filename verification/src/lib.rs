pub mod ascii;
pub mod serialization;
pub mod numbers;
pub mod tokens;
pub mod errors;
pub mod context;
pub mod namespaces;
pub mod css_escape;
pub mod selectors;
pub mod conversions;
pub mod expressions;
pub mod units;
pub mod properties;
pub mod font_face;
pub mod rules;
pub mod parsers;
