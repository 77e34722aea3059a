//! A partial evaluator that turns a typed functional program into straight-line quantum
//! instructions, together with the plain types of the language-service protocol.

pub mod callable_ids;
pub mod causes;
pub mod classical;
pub mod error;
pub mod evaluation_context;
pub mod evaluation_laws;
pub mod evaluator;
pub mod fir;
pub mod index_map;
pub mod laws;
pub mod lookup_laws;
pub mod lowering;
pub mod lowering_laws;
pub mod management;
pub mod protocol;
pub mod rca;
pub mod replay;
pub mod rir;
pub mod semantics;
pub mod state_laws;
pub mod step_laws;
pub mod validity;
pub mod value;
pub mod view_laws;

pub use error::Error;
pub use evaluator::partially_evaluate;
