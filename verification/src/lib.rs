//! Price tracking over a tabular product list: parse an input table of
//! products, extract a price from each product's fetched page, and write the
//! updated table; or render a previously written price table as a Markdown
//! report.
pub mod extract;
pub mod pipeline;
pub mod report;
pub mod table;
pub mod text;
