//! Things that the renderer can show as a piece of text.

use vstd::prelude::*;

verus! {

/// Why a widget could not bring itself up to date.
#[derive(Debug, Clone)]
pub struct WidgetError {
    pub message: String,
}

/// Something that keeps a text for the renderer to show.
pub trait Widget {
    /// Brings the widget up to date. A widget is asked often and decides
    /// itself how often it does the work.
    fn update(&mut self) -> Result<(), WidgetError>;

    /// The text to show.
    fn value_str(&self) -> &str;
}

} // verus!
