//! Completion rendering for a constructed-language dictionary lookup tool.
//!
//! The crate owns the completion-rendering pipeline: isolating the trailing
//! fragment of the text a user is typing, filtering a freshly loaded
//! dictionary, and serialising a structured completion result into an HTML
//! fragment with localized labels, HTML escaping and decorative-quote
//! stripping. The morphological completion engine itself is an external
//! collaborator: it consumes the trailing fragment and produces the
//! completion result that the renderer here turns into markup.

mod dictionary;
mod locale;
mod model;
mod render;
mod text;

pub use dictionary::Dictionary;
pub use dictionary::PosBucket;
pub use dictionary::entries_no_sentinel;
pub use dictionary::entry_from_dict;
pub use dictionary::filter_entries;
pub use dictionary::lemma_filter_idempotent;
pub use dictionary::lemma_filter_removes_sentinel;
pub use dictionary::lemma_no_sentinel_in_result;
pub use dictionary::load_dictionary;
pub use dictionary::result_from_dict;
pub use dictionary::result_no_sentinel;

pub use locale::Locale;
pub use locale::analysis_header;
pub use locale::lemma_pos_label_total;
pub use locale::locale_of;
pub use locale::parse_locale;
pub use locale::pos_label;
pub use locale::spec_analysis_header;
pub use locale::spec_pos_label;
pub use locale::spec_pos_label_en;
pub use locale::spec_pos_label_sv;

pub use model::CompletionResult;
pub use model::Entry;
pub use model::PartOfSpeech;
pub use model::result_wf;
pub use model::spec_translations;

pub use render::entry_line_spec;
pub use render::get_completions;
pub use render::join_comma_spec;
pub use render::lemma_render_deterministic;
pub use render::lemma_rendered_parse_translation_escaped;
pub use render::lemma_rendered_suggestion_headword_escaped;
pub use render::lemma_rendered_suggestion_translation_escaped;
pub use render::parse_block_spec;
pub use render::parse_slots_spec;
pub use render::parses_spec;
pub use render::render_completions;
pub use render::render_spec;
pub use render::slot_items_spec;
pub use render::slot_spec;
pub use render::suggestion_row_spec;
pub use render::suggestion_rows_spec;
pub use render::suggestions_table_spec;

pub use text::contains_seq;
pub use text::escape_char;
pub use text::escape_html;
pub use text::escape_text;
pub use text::is_decorative_quote;
pub use text::last_token;
pub use text::last_word;
pub use text::lemma_contains_seq_extend;
pub use text::lemma_escape_contains_reference;
pub use text::lemma_escape_no_raw_angle;
pub use text::lemma_last_token_no_space;
pub use text::lemma_last_token_trailing_space;
pub use text::lemma_strip_keeps_char;
pub use text::lemma_strip_no_quotes;
pub use text::remove_quotes;
pub use text::str_eq;
pub use text::strip_quotes;
