//! A framework for describing binary wire formats: traversal contexts that encode
//! and decode structured values, a size analysis, and fields whose shape depends
//! on values met earlier in the same traversal.

pub mod analysis;
pub mod generics;
pub mod key;
pub mod laws;
pub mod shape;
pub mod size;
pub mod traits;
pub mod traversal;
pub mod typedefs;

pub use key::RepresentKey;
pub use size::sizes_fit;
pub use size::sum_sizes;
pub use size::TypeSize;
pub use traversal::MakeType;
pub use traversal::MakeWith;
pub use traversal::Maker;
pub use traversal::VisitType;
pub use traversal::VisitWith;
pub use traversal::Visitor;
pub use analysis::AnalyzeType;
pub use analysis::AnalyzeWith;
pub use analysis::AssertConstOrFixed;
pub use analysis::TypeAnalyzer;
