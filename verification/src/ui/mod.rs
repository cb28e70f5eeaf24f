//! State behind the application's panels: the generator input, the results
//! table's ordering and the settings.

pub mod input_panel;
pub mod results_table;
pub mod settings_panel;
pub mod board;
