//! A morphological lexicon engine for Ancient Greek: inflection tables are
//! laid out as grids, their headers classified into grammatical tags, the
//! tagged forms assembled into paradigm trees, and those trees queried and
//! fuzzy-matched against observed spellings.
pub mod grammar;
pub mod text;
pub mod grid;
pub mod classify;
pub mod table;
pub mod lexicon;
pub mod builder;
pub mod paradigm;
pub mod resolve;
pub mod laws;
pub mod fuzzy;
pub mod key;
pub mod texts;
pub mod fixes;
pub mod generate;
pub mod morph;
pub mod options;
pub mod site;
pub mod site_tree;
