pub mod bytes;
pub mod error;
pub mod instruction;
pub mod isplt;
pub mod math;

pub use error::AppError;
pub use instruction::AppInstruction;
pub use isplt::ISPLT;
pub use math::Math;
