//! Core logic of an interactive read-eval-print session for a JavaScript /
//! TypeScript execution host.
//!
//! The host itself — the script engine, its instrumentation protocol, the
//! terminal, the tokenizer service — lives outside this crate. What stands
//! here is every decision the session makes, as verified functions over plain
//! values: extracting the word under the cursor, classifying a buffer of
//! lexed tokens as complete or not, coloring a line, planning and filtering
//! completions, the wrap-and-retry evaluation pipeline, and the driver loop's
//! bookkeeping.

pub mod text;
pub mod token;
pub mod validate;
pub mod highlight;
pub mod complete;
pub mod session;
pub mod pipeline;
pub mod driver;

