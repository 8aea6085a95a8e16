// State engine of a terminal resource monitor: rolling metric histories, the
// sorted and filtered process view, selection, a confirmation-gated action
// state machine, self-expiring notifications and an adjustable refresh rate.
// Telemetry, process directives and drawing are left to the caller.

pub mod app;
pub mod directive;
pub mod display;
pub mod history;
pub mod input;
pub mod process;
pub mod refresh;
pub mod text;
pub mod toast;
