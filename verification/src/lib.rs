pub mod geom;
pub mod input;
pub mod mouse_event;
pub mod context_menu;
pub mod mouse_action;
pub mod text;
pub mod mouse_positioner;
pub mod mouse_handler;
pub mod boundary_symbol;
pub mod boundary_map;
pub mod boundaries;
pub mod boundary_laws;
pub mod acme;
pub mod acme_lookup;
pub mod acme_plan;
pub mod acme_resize;
pub mod acme_layout;
pub mod acme_titles;
pub mod acme_laws;
pub mod acme_move_laws;
pub mod notification;
pub mod attention;
pub mod restored_history;
pub mod display_wrap;
pub mod display_wrap_text;
pub mod display_wrap_anchor;
pub mod display_wrap_select;
pub mod hover;
pub mod mouse_execution;
pub mod mouse_dispatch;
pub mod terminal_bytes;
pub mod overlays;
