pub mod artwork;
pub mod badges;
pub mod comments;
pub mod effect_graph;
pub mod external;
pub mod graph_canvas;
pub mod hex_pages;
pub mod inspection;
pub mod keymap;
pub mod list;
pub mod metadata;
pub mod metadata_jobs;
pub mod metadata_nav;
pub mod port_order;
pub mod recording;
pub mod row_menu;
pub mod regions;
pub mod samples;
pub mod session;
pub mod settings;
pub mod state;
pub mod text;
pub mod text_view;
