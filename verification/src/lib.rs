//! Backend registration and capability flags for a retargetable code generator.
//!
//! A target declares its tunable settings once, as a [`settings::schema::Schema`].
//! Raw `name=value` overrides are resolved against that schema into a
//! [`settings::flags::FlagSet`], and a [`isa::registry::Registry`] maps a target
//! triple to the builder that turns shared and target flags into a backend
//! behind the [`isa::contract::TargetIsa`] contract.

pub mod text;
pub mod settings;
pub mod ir;
pub mod machinst;
pub mod result;
pub mod isa;
