pub mod callable;
pub mod lax_functions;
pub mod lax_class;
pub mod lax_object;
pub mod native_functions;
