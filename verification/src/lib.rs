pub mod lookup;
pub mod order;
pub mod text;
pub mod ids;
pub mod domain;
pub mod fights;
pub mod ui_character;
pub mod ui_fight;
pub mod ui_state;
pub mod timer_input;
pub mod autocomplete;
pub mod dropdown;
pub mod grid;
pub mod icon;
pub mod character_header;
pub mod background;
pub mod optimizer;
pub mod assignment_icon;
pub mod boss_dropdown;
