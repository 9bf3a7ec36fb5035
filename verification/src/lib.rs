//! A cooperative multi-pane desktop core: four text panes, three
//! round-robin program slots, a keyboard router and a screen compositor.
//!
//! Every executable function is verified against a mathematical model of the
//! state it changes; the models live in [`pane`] and [`desk`].

pub mod chars;
pub mod desk;
pub mod desk_laws;
pub mod events;
pub mod geometry;
pub mod kernel;
pub mod output;
pub mod pane;
pub mod pane_laws;
pub mod window;
