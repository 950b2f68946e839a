//! What the overlay shows and the space-creation templates behind its dialogs.

pub mod model;
pub mod template;
