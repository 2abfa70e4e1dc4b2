//! Management of named provider profiles for a command-line assistant:
//! shell wrapper blocks kept in text files, the environment block merged
//! into the assistant's settings, and the swap-and-restore transaction.
pub mod text;
pub mod shell;
pub mod block;
pub mod profile;
pub mod swap;
pub mod listing;
pub mod block_lemmas;
