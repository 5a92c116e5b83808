//! Verified decision logic of the LX AudioLabs plugins: Equilibrium, Lucent,
//! Lucent Relay, Aether and Aurum.

pub mod aether_editor;
pub mod aether_editor_laws;
pub mod aether_laws;
pub mod aether_library;
pub mod aether_panel;
pub mod aether_params;
pub mod aether_preset;
pub mod aether_preset_laws;
pub mod analysis_laws;
pub mod aurum;
pub mod aurum_chain;
pub mod aurum_editor;
pub mod aurum_laws;
pub mod aurum_panel;
pub mod aurum_params;
pub mod canvas;
pub mod collision_laws;
pub mod equilibrium;
pub mod equilibrium_chain;
pub mod equilibrium_editor;
pub mod equilibrium_editor_laws;
pub mod equilibrium_egui;
pub mod equilibrium_laws;
pub mod equilibrium_panel;
pub mod equilibrium_params;
pub mod equilibrium_report;
pub mod hold;
pub mod host;
pub mod knob;
pub mod layer_cache;
pub mod level;
pub mod lucent;
pub mod lucent_block;
pub mod lucent_change;
pub mod lucent_classic;
pub mod lucent_editor;
pub mod lucent_editor_laws;
pub mod lucent_laws;
pub mod lucent_panel;
pub mod lucent_view;
pub mod masking;
pub mod masking_laws;
pub mod max_hold;
pub mod mode;
pub mod named_relays;
pub mod number_laws;
pub mod power_sum;
pub mod pre_master;
pub mod rank;
pub mod registry;
pub mod relay;
pub mod relay_editor;
pub mod relay_laws;
pub mod relay_state;
pub mod report;
pub mod report_laws;
pub mod resonance;
pub mod resonance_laws;
pub mod saved_state;
pub mod scope;
pub mod sensitivity;
pub mod snapshot;
pub mod start_laws;
pub mod text;
pub mod text_laws;
pub mod ticker;
pub mod vault;
pub mod view_laws;
pub mod wide;
