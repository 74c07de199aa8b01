//! A typed overlay on top of a generic entity/component store.
//!
//! Code declares *kinds* of entities: named categories that guarantee a fixed
//! set of components is present. An entity constructed as a kind receives, in
//! one atomic bundle insertion, the components the caller must supply
//! (the mandatory set), the components the kind populates on its own (the
//! default set), and a marker component that durably records the membership.
//! Consumers obtain typed handles to such entities either through a
//! kind-filtered query or through an explicit runtime check of the marker,
//! and express mutations through a command wrapper scoped to the kind.

pub mod store;
pub mod kind;
pub mod handle;
pub mod commands;
pub mod laws;

pub use store::Entity;
pub use store::Value;
pub use store::ValueView;
pub use store::Component;
pub use store::ComponentView;
pub use store::World;
pub use kind::EntityKind;
pub use kind::KindBundle;
pub use handle::WithKind;
pub use handle::EntityWithKind;
pub use handle::EntityWithKindItem;
pub use commands::Commands;
pub use commands::EntityCommands;
pub use commands::EntityKindCommands;
