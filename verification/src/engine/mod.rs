pub mod combat;
pub mod damage;
