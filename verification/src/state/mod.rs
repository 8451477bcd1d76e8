pub mod battle_state;
pub mod status_effect;
pub mod unit_instance;
