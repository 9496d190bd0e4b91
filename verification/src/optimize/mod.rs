pub mod lift_return_optimizer;
pub mod free_local_optimizer;
pub mod load_store_optimizer;
pub mod passes;
pub mod laws;
pub mod tail_laws;
