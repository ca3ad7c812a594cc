//! A retained-mode UI layout and event-dispatch engine.
//!
//! The crate centres on two coupled subsystems: the layout negotiation
//! protocol (a size-request/build two-pass over a drawable tree) and the
//! event propagation pipeline that routes input through the component
//! hierarchy with hit-testing and position-transforming semantics. Around
//! them sit the raw-input translator, the interaction wrappers that
//! synthesize semantic events, and the theme's resource tables.
//!
//! All geometry is kept in logical pixels as plain integers; conversion to
//! physical pixels is the render boundary's concern and happens outside
//! this crate, as does all asset loading and rendering.

pub mod layout;
pub mod layouts;
pub mod events;
pub mod emitters;
pub mod input;
pub mod containers;
pub mod drawable;
pub mod interactions;
pub mod resources;
pub mod theme;

pub use layout::{SizeRequest, Area, DefaultStack};
pub use theme::{
    Theme,
    Illustrations,
    ColorResources,
    FontResources,
    IconResources,
    LayoutResources,
    ButtonColorScheme,
    BrandResources,
    TextColor,
    BackgroundColor,
    ButtonColors,
    OutlineColor,
    StatusColor,
};
