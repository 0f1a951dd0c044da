pub mod carga;
pub mod devs;
pub mod error;
pub mod expansion;
pub mod genera;
pub mod interfaz;
pub mod lectura;
pub mod leyes;
pub mod leyes_codigo;
pub mod leyes_interfaz;
pub mod leyes_lectura;
mod listas;
pub mod macros;
pub mod puertos;
pub mod sintaxis;
pub mod texto;

pub use macros::{atomic2fmu, coupled2fmu};
pub use texto::{pascal, to_snake};
