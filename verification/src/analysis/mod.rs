pub mod filters;
pub mod frequency;
pub mod groups;
pub mod report;
pub mod tally;
pub mod timing;

pub use filters::FilterConfig;
pub use frequency::FrequencyAnalysis;
pub use report::AnalysisReport;
pub use timing::TimingAnalysis;
