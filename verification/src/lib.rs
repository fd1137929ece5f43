//! A source-code formatter built around a document layout engine: a model of
//! layout primitives (`doc`), an arena-backed factory for building documents
//! (`doc_builder`), a renderer that resolves every optional break within a
//! width budget (`doc::pretty_print`), and the data model of the language
//! being formatted (`data_model`, `enum_def`), whose `build` methods compile
//! syntax into documents. The renderer is proved to compute exactly the
//! rendering that the `render_from` machine defines, and `laws` states and
//! proves the engine's general properties on top of that.
pub mod config;
pub mod data_model;
pub mod doc;
pub mod doc_builder;
pub mod enum_def;
pub mod laws;
